use equity_token::error::Error;
use equity_token::factory::{Factory, InstanceIdentity, Value};
use equity_token::identity::Identity;
use equity_token::table::Entry;
use equity_token::token::Token;
use equity_token::types::{
    Allowance, CallContext, Event, Grant, Holding, RetentionPolicy, Snapshot, State, TokenMetadata,
};

fn id(name: &str) -> Identity {
    Identity::new(name)
}

fn stored() -> Snapshot {
    Snapshot {
        administrator: Some(id("admin")),
        metadata: Some(TokenMetadata {
            decimal: 7,
            name: String::from("ACME"),
            symbol: String::from("ACM"),
        }),
        companies: vec![Entry {
            key: String::from("ACME"),
            value: State {
                equity_diluted: 20,
                total_tokens: 1000,
                address: id("X"),
                company_url: String::from("u"),
                ipfshash: String::from("i"),
                company_description: String::from("d"),
            },
        }],
        balances: vec![
            Entry { key: id("X"), value: Holding { amount: 600, live_until: 70 } },
            Entry { key: id("Y"), value: Holding { amount: 400, live_until: 0 } },
            Entry { key: id("X"), value: Holding { amount: 1, live_until: 9 } },
        ],
        allowances: vec![Entry {
            key: Grant { owner: id("X"), delegate: id("Z") },
            value: Allowance { amount: 100, expiration: 1_000, live_until: 58 },
        }],
        policy: RetentionPolicy { low_water: 10, maximum: 100 },
        live_until: 55,
    }
}

#[test]
fn a_restored_ledger_holds_what_was_stored() {
    let mut token = Token::restore(stored()).ok().unwrap();
    assert_eq!(token.administrator(), Some(id("admin")));
    assert_eq!(token.policy(), RetentionPolicy { low_water: 10, maximum: 100 });
    assert_eq!(token.live_until(), 55);
    assert_eq!(
        token.metadata(),
        Some(TokenMetadata { decimal: 7, name: String::from("ACME"), symbol: String::from("ACM") })
    );
    assert_eq!(token.company(&String::from("ACME")).map(|s| s.total_tokens), Some(1000));
    assert_eq!(token.company(&String::from("NOPE")), None);
    // The first record of an owner that is named twice counts.
    assert_eq!(token.recorded_balance(&id("X")), Some(Holding { amount: 600, live_until: 70 }));
    assert_eq!(token.recorded_balance(&id("Y")), Some(Holding { amount: 400, live_until: 0 }));
    assert_eq!(token.recorded_balance(&id("W")), None);
    assert_eq!(
        token.recorded_allowance(&id("X"), &id("Z")),
        Some(Allowance { amount: 100, expiration: 1_000, live_until: 58 })
    );
    assert_eq!(token.recorded_allowance(&id("Z"), &id("X")), None);
    // Reading the records renews nothing.
    assert_eq!(token.live_until(), 55);

    let mut by_z = CallContext::new(50);
    by_z.authorize(id("Z"));
    assert_eq!(
        token.transfer_from(&by_z, id("Z"), id("X"), id("Y"), 100),
        Ok(Event::Transfer { from: id("X"), to: id("Y"), amount: 100 })
    );
    // Each record that was touched at 50 with less than 10 left is retained
    // until 150; the owner's record had 20 left and stays.
    assert_eq!(token.live_until(), 150);
    assert_eq!(token.recorded_balance(&id("X")), Some(Holding { amount: 500, live_until: 70 }));
    assert_eq!(token.recorded_balance(&id("Y")), Some(Holding { amount: 500, live_until: 150 }));
    assert_eq!(
        token.recorded_allowance(&id("X"), &id("Z")),
        Some(Allowance { amount: 0, expiration: 1_000, live_until: 150 })
    );
}

#[test]
fn a_snapshot_with_a_negative_amount_is_refused() {
    let mut negative_balance = stored();
    negative_balance
        .balances
        .push(Entry { key: id("W"), value: Holding { amount: -1, live_until: 0 } });
    assert_eq!(Token::restore(negative_balance).err(), Some(Error::NegativeAmount));

    let mut negative_allowance = stored();
    negative_allowance.allowances.push(Entry {
        key: Grant { owner: id("W"), delegate: id("Z") },
        value: Allowance { amount: -1, expiration: 0, live_until: 0 },
    });
    assert_eq!(Token::restore(negative_allowance).err(), Some(Error::NegativeAmount));
}

#[test]
fn an_expired_record_is_still_recorded() {
    let mut token = Token::restore(stored()).ok().unwrap();
    let late = CallContext::new(1_000);
    assert_eq!(token.allowance(&late, id("X"), id("Z")), 0);
    assert_eq!(
        token.recorded_allowance(&id("X"), &id("Z")),
        Some(Allowance { amount: 100, expiration: 1_000, live_until: 1_100 })
    );
}

#[test]
fn a_restored_factory_knows_its_instances() {
    let a = InstanceIdentity::derive(id("d"), [1; 32]);
    let b = InstanceIdentity::derive(id("d"), [2; 32]);
    let mut factory = Factory::restore(vec![
        Entry { key: a.clone(), value: [10; 32] },
        Entry { key: b.clone(), value: [20; 32] },
        Entry { key: a.clone(), value: [30; 32] },
    ]);
    assert_eq!(factory.code_of(&a), Some([10; 32]));
    assert_eq!(factory.code_of(&b), Some([20; 32]));
    assert!(!factory.instance_exists(&InstanceIdentity::derive(id("d"), [3; 32])));
    let again =
        factory.deploy(id("d"), [9; 32], [1; 32], String::from("init"), vec![], |_| Ok(Value::Void));
    assert_eq!(again, Err(Error::IdentityCollision));
    assert_eq!(factory.code_of(&a), Some([10; 32]));
}

#[test]
fn reads_renew_the_records_that_exist() {
    let mut token = Token::restore(stored()).ok().unwrap();
    let ctx = CallContext::new(65);
    assert_eq!(token.balance(&ctx, id("X")), 600);
    assert_eq!(token.balance(&ctx, id("W")), 0);
    assert_eq!(token.allowance(&ctx, id("X"), id("Z")), 100);
    assert_eq!(token.allowance(&ctx, id("X"), id("W")), 0);
    assert_eq!(token.live_until(), 165);
    assert_eq!(token.recorded_balance(&id("X")), Some(Holding { amount: 600, live_until: 165 }));
    assert_eq!(token.recorded_balance(&id("Y")), Some(Holding { amount: 400, live_until: 0 }));
    // A read makes no record.
    assert_eq!(token.recorded_balance(&id("W")), None);
    assert_eq!(token.recorded_allowance(&id("X"), &id("W")), None);
    assert_eq!(
        token.recorded_allowance(&id("X"), &id("Z")),
        Some(Allowance { amount: 100, expiration: 1_000, live_until: 165 })
    );
    // With enough lifetime left nothing is renewed.
    let soon = CallContext::new(100);
    assert_eq!(token.spendable_balance(&soon, id("X")), 600);
    assert_eq!(token.live_until(), 165);
    assert_eq!(token.recorded_balance(&id("X")), Some(Holding { amount: 600, live_until: 165 }));
}

#[test]
fn writes_make_and_renew_records() {
    let mut token = Token::new(RetentionPolicy { low_water: 10, maximum: 100 });
    let mut ctx = CallContext::new(5);
    ctx.authorize(id("X"));
    assert!(token.mint(&ctx, id("X"), 9).is_ok());
    assert_eq!(token.recorded_balance(&id("X")), Some(Holding { amount: 9, live_until: 105 }));
    assert!(token.approve(&ctx, id("X"), id("Z"), 4, 7).is_ok());
    assert_eq!(
        token.recorded_allowance(&id("X"), &id("Z")),
        Some(Allowance { amount: 4, expiration: 7, live_until: 105 })
    );
    let mut later = CallContext::new(99);
    later.authorize(id("X"));
    assert!(token.approve(&later, id("X"), id("Z"), 3, 200).is_ok());
    assert_eq!(
        token.recorded_allowance(&id("X"), &id("Z")),
        Some(Allowance { amount: 3, expiration: 200, live_until: 199 })
    );
    assert!(token.transfer(&later, id("X"), id("X"), 2).is_ok());
    assert_eq!(token.recorded_balance(&id("X")), Some(Holding { amount: 9, live_until: 199 }));
    assert!(token.burn(&later, id("X"), 9).is_ok());
    assert_eq!(token.recorded_balance(&id("X")), Some(Holding { amount: 0, live_until: 199 }));
    // A rejected operation renews nothing.
    let mut much_later = CallContext::new(500);
    much_later.authorize(id("X"));
    assert_eq!(token.burn(&much_later, id("X"), 1), Err(Error::InsufficientBalance));
    assert_eq!(token.recorded_balance(&id("X")), Some(Holding { amount: 0, live_until: 199 }));
    assert_eq!(token.live_until(), 199);
}
