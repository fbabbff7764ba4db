use equity_token::error::Error;
use equity_token::factory::{Factory, InstanceIdentity, Invocation, Value};
use equity_token::identity::Identity;
use equity_token::token::Token;
use equity_token::types::{CallContext, Event, RetentionPolicy};

fn init_args() -> Vec<Value> {
    vec![
        Value::Text(String::from("https://acme.example")),
        Value::Text(String::from("QmHash")),
        Value::Text(String::from("Anvils")),
        Value::U32(20),
        Value::I128(1000),
        Value::Address(Identity::new("admin")),
        Value::U32(7),
        Value::Text(String::from("ACME")),
        Value::Text(String::from("ACM")),
    ]
}

/// Runs the ledger's initializer on `token` with the arguments of `invocation`.
fn initialize(token: &mut Token, invocation: Invocation) -> Result<Value, Error> {
    let mut args = invocation.args.into_iter();
    let (
        Some(Value::Text(url)),
        Some(Value::Text(ipfs)),
        Some(Value::Text(desc)),
        Some(Value::U32(equity_diluted)),
        Some(Value::I128(total_tokens)),
        Some(Value::Address(admin)),
        Some(Value::U32(decimal)),
        Some(Value::Text(name)),
        Some(Value::Text(symbol)),
    ) = (
        args.next(),
        args.next(),
        args.next(),
        args.next(),
        args.next(),
        args.next(),
        args.next(),
        args.next(),
        args.next(),
    ) else {
        return Err(Error::InitializerFailed);
    };
    let mut ctx = CallContext::new(1);
    ctx.authorize(admin.clone());
    token
        .initialize(
            &ctx,
            admin.clone(),
            decimal,
            name,
            symbol,
            total_tokens,
            admin,
            equity_diluted,
            url,
            ipfs,
            desc,
        )
        .map(|_| Value::Void)
}

#[test]
fn test_deploy_from_contract() {
    let mut factory = Factory::new();
    let deployer = Identity::new("deployer");
    let wasm_hash = [7u8; 32];
    let salt = [0; 32];
    let init_fn = String::from("init");
    let mut token = Token::new(RetentionPolicy { low_water: 10, maximum: 100 });

    let (contract_id, init_result) = factory
        .deploy(deployer.clone(), wasm_hash, salt, init_fn, init_args(), |invocation| {
            assert_eq!(invocation.function, "init");
            assert_eq!(invocation.code, [7u8; 32]);
            initialize(&mut token, invocation)
        })
        .unwrap();

    assert!(init_result == Value::Void);
    assert_eq!(contract_id, InstanceIdentity::derive(deployer, [0; 32]));
    assert!(factory.instance_exists(&contract_id));
    assert_eq!(factory.code_of(&contract_id), Some(wasm_hash));
    // The instance is initialized.
    assert_eq!(token.decimals(), Ok(7));
    let ctx = CallContext::new(2);
    assert_eq!(token.balance(&ctx, Identity::new("admin")), 1000);
}

#[test]
fn derivation_is_deterministic_and_unique() {
    let a = InstanceIdentity::derive(Identity::new("d"), [1; 32]);
    let b = InstanceIdentity::derive(Identity::new("d"), [1; 32]);
    assert_eq!(a, b);
    let mut salt = [1u8; 32];
    salt[31] = 2;
    assert_ne!(a, InstanceIdentity::derive(Identity::new("d"), salt));
    assert_ne!(a, InstanceIdentity::derive(Identity::new("e"), [1; 32]));
}

#[test]
fn deploying_twice_with_the_same_deployer_and_salt_collides() {
    let mut factory = Factory::new();
    let first = factory
        .deploy(Identity::new("d"), [1; 32], [9; 32], String::from("init"), vec![], |_| {
            Ok(Value::U32(1))
        })
        .unwrap();
    assert_eq!(first.1, Value::U32(1));
    let mut invoked = false;
    let second =
        factory.deploy(Identity::new("d"), [2; 32], [9; 32], String::from("init"), vec![], |_| {
            invoked = true;
            Ok(Value::U32(2))
        });
    assert_eq!(second, Err(Error::IdentityCollision));
    assert!(!invoked);
    assert_eq!(factory.code_of(&first.0), Some([1; 32]));
    // Another salt, and another deployer, are free.
    let mut salt = [9u8; 32];
    salt[0] = 8;
    assert!(factory
        .deploy(Identity::new("d"), [2; 32], salt, String::from("init"), vec![], |_| Ok(Value::Void))
        .is_ok());
    assert!(factory
        .deploy(Identity::new("e"), [2; 32], [9; 32], String::from("init"), vec![], |_| Ok(
            Value::Void
        ))
        .is_ok());
    assert_eq!(factory.code_of(&first.0), Some([1; 32]));
}

#[test]
fn a_failed_initializer_leaves_no_instance() {
    let mut factory = Factory::new();
    let id = InstanceIdentity::derive(Identity::new("d"), [3; 32]);
    let r = factory.deploy(Identity::new("d"), [1; 32], [3; 32], String::from("init"), vec![], |_| {
        Err(Error::InvalidDecimals)
    });
    assert_eq!(r, Err(Error::InitializerFailed));
    assert!(!factory.instance_exists(&id));
    assert_eq!(factory.code_of(&id), None);
    // The identity is still free.
    let again =
        factory.deploy(Identity::new("d"), [1; 32], [3; 32], String::from("init"), vec![], |_| {
            Ok(Value::Bool(true))
        });
    assert_eq!(again, Ok((id, Value::Bool(true))));
}

#[test]
fn a_failing_ledger_initializer_rolls_the_deployment_back() {
    let mut factory = Factory::new();
    let mut token = Token::new(RetentionPolicy { low_water: 10, maximum: 100 });
    let mut args = init_args();
    args[6] = Value::U32(256);
    let r = factory.deploy(Identity::new("d"), [1; 32], [0; 32], String::from("init"), args, |inv| {
        initialize(&mut token, inv)
    });
    assert_eq!(r, Err(Error::InitializerFailed));
    assert!(!factory.instance_exists(&InstanceIdentity::derive(Identity::new("d"), [0; 32])));
    assert_eq!(token.administrator(), None);
}

#[test]
fn prepare_and_complete_in_two_steps() {
    let mut factory = Factory::new();
    let invocation = factory
        .prepare(
            Identity::new("d"),
            [4; 32],
            [5; 32],
            String::from("init"),
            vec![Value::I128(-3), Value::Bool(false)],
        )
        .unwrap();
    assert_eq!(invocation.instance, InstanceIdentity::derive(Identity::new("d"), [5; 32]));
    assert_eq!(invocation.code, [4; 32]);
    assert_eq!(invocation.function, "init");
    assert_eq!(invocation.args, vec![Value::I128(-3), Value::Bool(false)]);
    assert!(!factory.instance_exists(&invocation.instance));

    let id = invocation.instance.clone();
    assert_eq!(
        factory.complete(invocation.instance, [4; 32], Err(Error::Unauthorized)),
        Err(Error::InitializerFailed)
    );
    assert!(!factory.instance_exists(&id));
    assert_eq!(
        factory.complete(id.clone(), [4; 32], Ok(Value::Void)),
        Ok((id.clone(), Value::Void))
    );
    assert!(factory.instance_exists(&id));
    assert_eq!(
        factory.complete(id.clone(), [6; 32], Ok(Value::Void)),
        Err(Error::IdentityCollision)
    );
    assert_eq!(
        factory.complete(id.clone(), [6; 32], Err(Error::Unauthorized)),
        Err(Error::IdentityCollision)
    );
    assert_eq!(factory.code_of(&id), Some([4; 32]));
    assert_eq!(
        factory.prepare(Identity::new("d"), [6; 32], [5; 32], String::from("init"), vec![]),
        Err(Error::IdentityCollision)
    );
}

#[test]
fn the_ledger_event_of_an_initializer_is_a_mint() {
    let mut token = Token::new(RetentionPolicy { low_water: 10, maximum: 100 });
    let mut ctx = CallContext::new(1);
    ctx.authorize(Identity::new("admin"));
    let r = token.initialize(
        &ctx,
        Identity::new("admin"),
        7,
        String::from("ACME"),
        String::from("ACM"),
        1000,
        Identity::new("admin"),
        20,
        String::from("u"),
        String::from("i"),
        String::from("d"),
    );
    assert_eq!(r, Ok(Event::Mint { to: Identity::new("admin"), amount: 1000 }));
}
