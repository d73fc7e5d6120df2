use allowance_ledger::contract::{AllowanceContract, AllowanceError};
use allowance_ledger::storage::{Address, Env};

#[test]
fn test_send_allowance() {
    let mut env: Env = Env::new();

    let child1: Address = Address { id: 1 };
    let child2: Address = Address { id: 2 };

    // Initial state: nothing has ever been disbursed.
    assert_eq!(AllowanceContract::get_total_sent(&env), 0);
    assert_eq!(AllowanceContract::get_last_child(&env), None);

    // First allowance.
    assert!(AllowanceContract::send_allowance(&mut env, child1, 100).is_ok());
    assert_eq!(AllowanceContract::get_total_sent(&env), 100);
    assert_eq!(AllowanceContract::get_last_child(&env), Some(child1));

    // Second allowance.
    assert!(AllowanceContract::send_allowance(&mut env, child2, 50).is_ok());
    assert_eq!(AllowanceContract::get_total_sent(&env), 150);
    assert_eq!(AllowanceContract::get_last_child(&env), Some(child2));
}

#[test]
fn test_multiple_sends_to_same_child() {
    let mut env: Env = Env::new();

    let child: Address = Address { id: 5 };

    assert!(AllowanceContract::send_allowance(&mut env, child, 25).is_ok());
    assert!(AllowanceContract::send_allowance(&mut env, child, 75).is_ok());

    assert_eq!(AllowanceContract::get_total_sent(&env), 100);
    assert_eq!(AllowanceContract::get_last_child(&env), Some(child));
}

#[test]
fn test_initial_state() {
    let env: Env = Env::new();
    assert_eq!(AllowanceContract::get_total_sent(&env), 0);
    assert_eq!(AllowanceContract::get_last_child(&env), None);
}

#[test]
fn test_repeat_is_not_idempotent() {
    let mut env: Env = Env::new();
    let child: Address = Address { id: 9 };

    assert!(AllowanceContract::send_allowance(&mut env, child, 40).is_ok());
    assert_eq!(AllowanceContract::get_total_sent(&env), 40);

    // The same call again doubles the total rather than being a no-op.
    assert!(AllowanceContract::send_allowance(&mut env, child, 40).is_ok());
    assert_eq!(AllowanceContract::get_total_sent(&env), 80);
}

#[test]
fn test_overflow_leaves_state_unchanged() {
    let mut env: Env = Env::new();
    let child1: Address = Address { id: 1 };
    let child2: Address = Address { id: 2 };

    assert!(AllowanceContract::send_allowance(&mut env, child1, u32::MAX - 10).is_ok());
    assert_eq!(AllowanceContract::get_total_sent(&env), u32::MAX - 10);

    // The next amount would overflow: the call fails and neither entry moves.
    let r: Result<(), AllowanceError> = AllowanceContract::send_allowance(&mut env, child2, 11);
    assert_eq!(r, Err(AllowanceError::Overflow));
    assert_eq!(AllowanceContract::get_total_sent(&env), u32::MAX - 10);
    assert_eq!(AllowanceContract::get_last_child(&env), Some(child1));

    // An amount that still fits goes through.
    assert!(AllowanceContract::send_allowance(&mut env, child2, 10).is_ok());
    assert_eq!(AllowanceContract::get_total_sent(&env), u32::MAX);
    assert_eq!(AllowanceContract::get_last_child(&env), Some(child2));
}

#[test]
fn test_sequence_adds_up() {
    let mut env: Env = Env::new();
    let amounts: Vec<u32> = vec![10, 250, 3, 1000, 42];

    let mut expected: u32 = 0;
    let mut i: usize = 0;
    while i < amounts.len() {
        let child: Address = Address { id: i as u64 };
        assert!(AllowanceContract::send_allowance(&mut env, child, amounts[i]).is_ok());
        expected += amounts[i];
        i += 1;
    }

    assert_eq!(AllowanceContract::get_total_sent(&env), expected);
    assert_eq!(AllowanceContract::get_total_sent(&env), 1305);
    assert_eq!(
        AllowanceContract::get_last_child(&env),
        Some(Address { id: (amounts.len() - 1) as u64 })
    );
}

#[test]
fn test_expiration_after_horizon() {
    let mut env: Env = Env::new();
    let child: Address = Address { id: 3 };

    assert!(AllowanceContract::send_allowance(&mut env, child, 100).is_ok());

    // Right at the horizon the entries are still live.
    env.advance_ledger(100);
    assert_eq!(AllowanceContract::get_total_sent(&env), 100);
    assert_eq!(AllowanceContract::get_last_child(&env), Some(child));

    // One step past it, with no renewing write, both reads see the
    // defaults again.
    env.advance_ledger(1);
    assert_eq!(AllowanceContract::get_total_sent(&env), 0);
    assert_eq!(AllowanceContract::get_last_child(&env), None);
}

#[test]
fn test_write_renews_horizon() {
    let mut env: Env = Env::new();
    let child: Address = Address { id: 4 };

    assert!(AllowanceContract::send_allowance(&mut env, child, 1).is_ok());

    // A later write renews the horizon, so the entries outlive the
    // horizon the first write alone would have given them.
    env.advance_ledger(60);
    assert!(AllowanceContract::send_allowance(&mut env, child, 2).is_ok());
    env.advance_ledger(90);
    assert_eq!(AllowanceContract::get_total_sent(&env), 3);
    assert_eq!(AllowanceContract::get_last_child(&env), Some(child));

    // Without a further write the renewed horizon lapses too.
    env.advance_ledger(11);
    assert_eq!(AllowanceContract::get_total_sent(&env), 0);
    assert_eq!(AllowanceContract::get_last_child(&env), None);
}
