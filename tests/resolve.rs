use rsa::pkcs1::EncodeRsaPrivateKey;
use rsa::pkcs8::EncodePrivateKey;
use arbitrage_monitor::auth::{build_signing_message, encode_signature, generate_signature, parse_private_key, AuthError};
use arbitrage_monitor::kalshi::{pick_market_index, select_market_ticker, MarketInfo};
use arbitrage_monitor::slug::{asset_for_market, pick_outcome, select_asset_id, select_match_market, slug_anchor, winner_question, SlugError};
use arbitrage_monitor::text::{chars_of, has_infix, has_prefix, has_suffix};

fn info(ticker: &str, title: Option<&str>) -> MarketInfo {
    MarketInfo { ticker: ticker.to_string(), title: title.map(|t| t.to_string()) }
}

fn chars(s: &str) -> Vec<char> {
    s.chars().collect()
}

#[test]
fn ticker_suffix_wins_first() {
    let ms = vec![info("EVT-TSW", Some("Will TSW win the GAM vs TSW match?")), info("EVT-GAM", Some("Will GAM Esports win?"))];
    assert_eq!(select_market_ticker(&ms, Some("GAM")), Some("EVT-GAM".to_string()));
}

#[test]
fn title_subject_wins_second() {
    let ms = vec![info("A1", Some("Will TSW win the GAM vs TSW match?")), info("A2", Some("Will GAM Esports win?"))];
    assert_eq!(select_market_ticker(&ms, Some("gam")), Some("A2".to_string()));
}

#[test]
fn any_mention_wins_third() {
    let ms = vec![info("X1", Some("Something else")), info("X2-GAMX", None), info("X3", Some("gam"))];
    assert_eq!(select_market_ticker(&ms, Some("Gam")), Some("X2-GAMX".to_string()));
}

#[test]
fn first_market_is_the_fallback() {
    let ms = vec![info("F1", None), info("F2", Some("Other"))];
    assert_eq!(select_market_ticker(&ms, Some("zzz")), Some("F1".to_string()));
    assert_eq!(select_market_ticker(&ms, None), Some("F1".to_string()));
    assert_eq!(select_market_ticker(&vec![], Some("zzz")), None);
}

#[test]
fn pick_on_lowered_values() {
    let tickers = vec![chars("a-x"), chars("b-gam")];
    let titles = vec![None, Some(chars("will gam win"))];
    assert_eq!(pick_market_index(&tickers, &titles, &chars("gam")), 1);
    assert_eq!(pick_market_index(&tickers, &titles, &chars("GAM")), 0);
}

#[test]
fn anchor_is_second_slug_segment() {
    assert_eq!(slug_anchor("nba-dal-hou-2026-01-31"), Some("dal".to_string()));
    assert_eq!(slug_anchor("NBA-DAL"), Some("dal".to_string()));
    assert_eq!(slug_anchor("lol-"), Some(String::new()));
    assert_eq!(slug_anchor("nodash"), None);
}

#[test]
fn match_winner_question_is_preferred() {
    let qs = vec!["Game 1 Winner".to_string(), "LoL: GAM vs TSW (BO3)".to_string(), "Total kills O/U".to_string()];
    assert_eq!(select_match_market(&qs), Some(1));
    let side = vec!["First Blood".to_string(), "Map Handicap".to_string()];
    assert_eq!(select_match_market(&side), Some(0));
    assert_eq!(select_match_market(&vec![]), None);
    assert!(!winner_question(&chars("1h spread")));
    assert!(winner_question(&chars("dal vs hou")));
}

#[test]
fn outcome_and_asset_selection() {
    let outcomes = vec![chars("houston rockets"), chars("dallas mavericks")];
    assert_eq!(pick_outcome(&outcomes, &chars("dal")), 1);
    assert_eq!(pick_outcome(&outcomes, &chars("zzz")), 0);
    let ids = vec!["111".to_string(), "222".to_string()];
    let names = vec!["Houston Rockets".to_string(), "Dallas Mavericks".to_string()];
    assert_eq!(select_asset_id(&ids, &names, "dal"), Some("222".to_string()));
    assert_eq!(select_asset_id(&ids[..1].to_vec(), &names, "dal"), None);
}

#[test]
fn asset_from_json_lists() {
    let ids = r#"["111", "222"]"#;
    let outcomes = r#"["Dallas Mavericks", "Houston Rockets"]"#;
    assert_eq!(asset_for_market(ids, outcomes, "hou"), Ok("222".to_string()));
    assert_eq!(asset_for_market(ids, outcomes, "dal"), Ok("111".to_string()));
    assert_eq!(asset_for_market(ids, outcomes, "zzz"), Ok("111".to_string()));
    assert_eq!(asset_for_market("not json", outcomes, "dal"), Err(SlugError::BadTokenIds));
    assert_eq!(asset_for_market(ids, "[1, 2]", "dal"), Err(SlugError::BadOutcomes));
    assert_eq!(asset_for_market(r#"["111"]"#, outcomes, "hou"), Err(SlugError::NoAssetId));
}

#[test]
fn substring_predicates() {
    assert!(has_prefix(&chars("will gam"), &chars("will")));
    assert!(!has_prefix(&chars("wil"), &chars("will")));
    assert!(has_suffix(&chars("evt-gam"), &chars("-gam")));
    assert!(!has_suffix(&chars("evt-ga"), &chars("-gam")));
    assert!(has_infix(&chars("abc"), &chars("")));
    assert!(has_infix(&chars("abcabd"), &chars("abd")));
    assert!(!has_infix(&chars("ab"), &chars("abc")));
    assert_eq!(chars_of("héllo"), chars("héllo"));
}

#[test]
fn signing_message_concatenates_parts() {
    let m = build_signing_message(1_700_000_000_123, "GET", "/trade-api/v2/markets/X");
    assert_eq!(String::from_utf8(m).unwrap(), "1700000000123GET/trade-api/v2/markets/X");
    assert_eq!(build_signing_message(0, "", ""), b"0".to_vec());
}

#[test]
fn unreadable_key_is_rejected() {
    assert_eq!(parse_private_key("not a key").err(), Some(AuthError::UnreadableKey));
}

#[test]
fn signature_is_base64_of_key_size() {
    let key = rsa::RsaPrivateKey::new(&mut rand::thread_rng(), 1024).unwrap();
    let pem = key.to_pkcs1_pem(rsa::pkcs8::LineEnding::LF).unwrap();
    let parsed = parse_private_key(&pem).expect("PKCS#1 key");
    let pem8 = key.to_pkcs8_pem(rsa::pkcs8::LineEnding::LF).unwrap();
    assert!(parse_private_key(&pem8).is_ok());
    let sig = generate_signature(&parsed, 1_700_000_000_000, "GET", "/trade-api/v2/markets").unwrap();
    assert_eq!(sig.len(), 172);
    assert!(sig.ends_with("="));
}

#[test]
fn small_key_cannot_sign() {
    let key = rsa::RsaPrivateKey::new(&mut rand::thread_rng(), 512).unwrap();
    assert_eq!(generate_signature(&key, 1, "GET", "/").err(), Some(AuthError::SigningFailed));
}

#[test]
fn signature_bytes_encode_as_padded_base64() {
    assert_eq!(encode_signature(Some(b"Man".to_vec())), Ok("TWFu".to_string()));
    assert_eq!(encode_signature(Some(b"Ma".to_vec())), Ok("TWE=".to_string()));
    assert_eq!(encode_signature(Some(b"M".to_vec())), Ok("TQ==".to_string()));
    assert_eq!(encode_signature(Some(vec![0xfb, 0xff, 0xbf])), Ok("+/+/".to_string()));
    assert_eq!(encode_signature(Some(vec![])), Ok(String::new()));
    assert_eq!(encode_signature(None), Err(AuthError::SigningFailed));
}
