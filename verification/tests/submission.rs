use stellar_swipe::address::Address;
use stellar_swipe::address_map::AddressMap;
use stellar_swipe::signal_registry::stake::{stake, StakeInfo, DEFAULT_MINIMUM_STAKE};
use stellar_swipe::signal_registry::submission::{submit_signal, Action, Error, Signal};
use stellar_swipe::text::{contains_char, text_len};

fn provider(id: u8) -> Address {
    Address::new([id; 32])
}

fn staked(who: &Address, amount: i128) -> AddressMap<StakeInfo> {
    let mut stakes = AddressMap::new();
    stake(&mut stakes, who, amount).unwrap();
    stakes
}

fn submit(
    storage: &mut Vec<Signal>,
    stakes: &AddressMap<StakeInfo>,
    who: &Address,
    pair: &str,
    action: Action,
    price: i128,
    rationale: &str,
    now: u64,
) -> Result<u64, Error> {
    submit_signal(storage, stakes, who, pair.to_string(), action, price, rationale.to_string(), now)
}

#[test]
fn a_valid_signal_is_stored_with_the_next_identifier() {
    let alice = provider(1);
    let stakes = staked(&alice, DEFAULT_MINIMUM_STAKE);
    let mut storage = Vec::new();
    let id = submit(&mut storage, &stakes, &alice, "XLM/USDC", Action::Buy, 1_250, "breakout", 100);
    assert_eq!(id, Ok(1));
    let id = submit(&mut storage, &stakes, &alice, "XLM/USDC", Action::Sell, 1_250, "reversal", 100);
    assert_eq!(id, Ok(2));
    assert_eq!(storage.len(), 2);
    let first = &storage[0];
    assert_eq!(first.provider, alice);
    assert_eq!(first.asset_pair, "XLM/USDC");
    assert_eq!(first.action, Action::Buy);
    assert_eq!(first.price, 1_250);
    assert_eq!(first.rationale, "breakout");
    assert_eq!(first.timestamp, 100);
    assert_eq!(first.expiry, 100 + 86_400);
    assert_eq!(storage[1].action, Action::Sell);
}

#[test]
fn refusals_come_in_the_order_of_the_checks() {
    let (alice, bob, carol) = (provider(1), provider(2), provider(3));
    let mut stakes = staked(&alice, DEFAULT_MINIMUM_STAKE);
    stake(&mut stakes, &bob, DEFAULT_MINIMUM_STAKE - 1).unwrap();
    let mut storage = Vec::new();
    let long = "r".repeat(501);

    // No record at all, with everything else wrong too.
    assert_eq!(submit(&mut storage, &stakes, &carol, "", Action::Buy, 0, "", 0), Err(Error::NoStake));
    assert_eq!(
        submit(&mut storage, &stakes, &bob, "", Action::Buy, 0, "", 0),
        Err(Error::BelowMinimumStake)
    );
    for pair in ["", "A/", "/", "XLMUSDC", "AAAAAAAAAA/BBBBBBBBBB", "no slash here"] {
        assert_eq!(
            submit(&mut storage, &stakes, &alice, pair, Action::Buy, 0, "", 0),
            Err(Error::InvalidAssetPair),
            "{pair}"
        );
    }
    assert_eq!(
        submit(&mut storage, &stakes, &alice, "A/B", Action::Buy, 0, "", 0),
        Err(Error::InvalidPrice)
    );
    assert_eq!(
        submit(&mut storage, &stakes, &alice, "A/B", Action::Buy, -1, "", 0),
        Err(Error::InvalidPrice)
    );
    assert_eq!(
        submit(&mut storage, &stakes, &alice, "A/B", Action::Buy, 1, "", 0),
        Err(Error::EmptyRationale)
    );
    assert_eq!(
        submit(&mut storage, &stakes, &alice, "A/B", Action::Buy, 1, &long, 0),
        Err(Error::EmptyRationale)
    );
    assert!(storage.is_empty());
    // Lengths count bytes: 20 bytes pass, 500 bytes pass.
    assert_eq!(
        submit(&mut storage, &stakes, &alice, "AAAAAAAAA/BBBBBBBBBB", Action::Hold, 1, &long[..500], 0),
        Ok(1)
    );
    // Two bytes for the first character and one for the slash make three.
    assert_eq!(submit(&mut storage, &stakes, &alice, "é/", Action::Hold, 1, "x", 0), Ok(2));
}

#[test]
fn the_same_signal_within_an_hour_is_a_duplicate() {
    let (alice, bob) = (provider(1), provider(2));
    let mut stakes = staked(&alice, DEFAULT_MINIMUM_STAKE);
    stake(&mut stakes, &bob, DEFAULT_MINIMUM_STAKE).unwrap();
    let mut storage = Vec::new();
    assert_eq!(submit(&mut storage, &stakes, &alice, "XLM/USDC", Action::Buy, 10, "a", 1_000), Ok(1));
    assert_eq!(
        submit(&mut storage, &stakes, &alice, "XLM/USDC", Action::Buy, 10, "other words", 1_000),
        Err(Error::DuplicateSignal)
    );
    assert_eq!(
        submit(&mut storage, &stakes, &alice, "XLM/USDC", Action::Buy, 10, "a", 4_599),
        Err(Error::DuplicateSignal)
    );
    // A clock that runs behind the stored signal still sees it as recent.
    assert_eq!(
        submit(&mut storage, &stakes, &alice, "XLM/USDC", Action::Buy, 10, "a", 5),
        Err(Error::DuplicateSignal)
    );
    assert_eq!(storage.len(), 1);
    // Any difference makes a new signal.
    assert_eq!(submit(&mut storage, &stakes, &bob, "XLM/USDC", Action::Buy, 10, "a", 1_000), Ok(2));
    assert_eq!(submit(&mut storage, &stakes, &alice, "XLM/USDT", Action::Buy, 10, "a", 1_000), Ok(3));
    assert_eq!(submit(&mut storage, &stakes, &alice, "XLM/USDC", Action::Sell, 10, "a", 1_000), Ok(4));
    assert_eq!(submit(&mut storage, &stakes, &alice, "XLM/USDC", Action::Buy, 11, "a", 1_000), Ok(5));
    // Exactly one hour later it is no duplicate any more.
    assert_eq!(submit(&mut storage, &stakes, &alice, "XLM/USDC", Action::Buy, 10, "a", 4_600), Ok(6));
    assert_eq!(
        submit(&mut storage, &stakes, &alice, "XLM/USDC", Action::Buy, 10, "a", 4_601),
        Err(Error::DuplicateSignal)
    );
}

#[test]
fn text_helpers() {
    assert!(contains_char("XLM/USDC", '/'));
    assert!(!contains_char("XLMUSDC", '/'));
    assert!(!contains_char("", '/'));
    assert!(contains_char("日本/語", '語'));
    assert_eq!(text_len(""), 0);
    assert_eq!(text_len("abc"), 3);
    assert_eq!(text_len("é"), 2);
    assert_eq!(text_len("日本語"), 9);
}
