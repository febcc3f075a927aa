use std::cell::{Cell, RefCell};
use std::collections::HashMap;

use base64::engine::general_purpose::{STANDARD, URL_SAFE_NO_PAD};
use base64::Engine;
use hmac::{Hmac, Mac};
use sha2::Sha256;
use aster_core::credential_store::CredentialStore;
use aster_core::credentials::{
    credential_scope, delete_from, load_from, normalize_username, save_to,
    SavedCredentialRequest,
};
use aster_core::error::{AppError, AppResult};
use aster_core::ids::{new_id, random_nonce};
use aster_core::pagination::{
    collect_all, cursor_offset, decode_cursor_payload, encode_cursor_payload, paginate, query,
    OffsetCursor, Page, Revision,
};
use aster_core::pairing::{
    decode_message, generate_pair_code, pairing_context, validate_client_metadata,
    validate_nonce, verified_pairing, PairStartRequest, PairingRegistration, PairingRuntime,
};
use aster_core::proxy::{
    dedupe_proxy_candidates, get_system_proxy_candidates, mac_proxy_pairs, normalize_proxy_url,
    proxy_flag, proxy_value, split_whitespace, windows_proxy_pairs, PlatformProxyOutput,
    ProxyCandidate,
};
use aster_core::report_pagination::{empty_bundle, get_page, merge, section_index, section_name};
use aster_core::secrets::{
    delete, load, save, ApplicationSecret, SecretCache, SecretCaches, APPLICATION_SCOPE,
};
use aster_core::security_rate_limiter::{SecurityRateLimiter, PAIR_WINDOW_NANOS};
use aster_core::stock_queries::{
    list_stock_balances_page, list_stock_batches_page, list_stock_documents,
    stock_balance_filter, StockBalanceQuery,
};

fn failure<T>(result: AppResult<T>) -> AppError {
    match result {
        Ok(_) => panic!("expected an error"),
        Err(error) => error,
    }
}

fn validation_message(error: AppError) -> String {
    match error {
        AppError::Validation(message) => message,
        other => panic!("expected a validation error, got {:?}", other),
    }
}

#[test]
fn repeated_database_cursor_is_refused() {
    let result = collect_all(|cursor| -> AppResult<Page<u32>> {
        match cursor {
            None => Ok(Page { items: vec![1], next_cursor: Some("a".to_string()) }),
            Some("a") => Ok(Page { items: vec![2], next_cursor: Some("a".to_string()) }),
            _ => unreachable!(),
        }
    });
    assert_eq!(validation_message(result.unwrap_err()), "数据库返回了重复分页游标");
}

#[test]
fn page_errors_are_passed_through() {
    let result = list_stock_documents(|cursor| -> AppResult<Page<u32>> {
        match cursor {
            None => Ok(Page { items: vec![1], next_cursor: Some("b".to_string()) }),
            _ => Err(AppError::Timeout("数据库操作超过 30 秒，已安全中断".to_string())),
        }
    });
    match result.unwrap_err() {
        AppError::Timeout(m) => assert_eq!(m, "数据库操作超过 30 秒，已安全中断"),
        other => panic!("unexpected {:?}", other),
    }
}

#[test]
fn offset_pages_hold_at_most_five_hundred_rows() {
    let (items, next) = paginate((0..501).collect::<Vec<u32>>(), 1000);
    assert_eq!(items.len(), 500);
    assert_eq!(items[499], 499);
    assert_eq!(next, Some(1500));
    let (items, next) = paginate(vec![1u32, 2, 3], 0);
    assert_eq!(items, vec![1, 2, 3]);
    assert_eq!(next, None);
    assert_eq!(query("SELECT 1", Some(500)), "SELECT 1 LIMIT 501 OFFSET 500");
    assert_eq!(query("SELECT 1", Some(-3)), "SELECT 1 LIMIT 501 OFFSET -3");
    assert_eq!(query("SELECT 1", None), "SELECT 1");
}

fn revision(business: i64) -> Revision {
    Revision {
        process_id: "process-1".to_string(),
        database_epoch: "epoch-1".to_string(),
        business_revision: business,
    }
}

#[test]
fn offset_cursor_is_bound_to_scope_and_revision() {
    let cursor = OffsetCursor { scope: "units".to_string(), revision: revision(4), offset: 500 };
    assert_eq!(cursor_offset(None, "units", &revision(4)).unwrap(), 0);
    assert_eq!(cursor_offset(Some(&cursor), "units", &revision(4)).unwrap(), 500);
    assert_eq!(
        validation_message(cursor_offset(Some(&cursor), "suppliers", &revision(4)).unwrap_err()),
        "分页游标无效或不属于当前查询"
    );
    assert!(cursor_offset(Some(&cursor), "units", &revision(5)).is_err());
    let negative = OffsetCursor { scope: "units".to_string(), revision: revision(4), offset: -1 };
    assert!(cursor_offset(Some(&negative), "units", &revision(4)).is_err());
}

#[test]
fn signed_cursor_round_trips_and_tampering_is_refused() {
    let secret = b"cursor-secret";
    let payload = br#"{"scope":"units","offset":500}"#;
    let text = encode_cursor_payload(payload, secret);
    let expected_head = URL_SAFE_NO_PAD.encode(payload);
    let expected_tail = URL_SAFE_NO_PAD.encode(hmac_tag(secret, payload));
    assert_eq!(text, format!("{}.{}", expected_head, expected_tail));
    assert_eq!(decode_cursor_payload(&text, secret).unwrap(), payload.to_vec());
    assert!(decode_cursor_payload(&text, b"other-secret").is_err());
    let forged = format!("{}.{}", URL_SAFE_NO_PAD.encode(b"{}"), expected_tail);
    assert!(decode_cursor_payload(&forged, secret).is_err());
    assert_eq!(
        validation_message(decode_cursor_payload("no-dot-here", secret).unwrap_err()),
        "分页游标无效或不属于当前查询"
    );
    assert!(decode_cursor_payload("!!.??", secret).is_err());
}

fn hmac_tag(key: &[u8], message: &[u8]) -> Vec<u8> {
    let mut mac = Hmac::<Sha256>::new_from_slice(key).expect("any key length");
    mac.update(message);
    mac.finalize().into_bytes().to_vec()
}

#[test]
fn cursor_signature_matches_the_published_hmac_vector() {
    let text = encode_cursor_payload(b"The quick brown fox jumps over the lazy dog", b"key");
    let (head, tail) = text.split_once('.').expect("two parts");
    assert_eq!(URL_SAFE_NO_PAD.decode(head).unwrap(), b"The quick brown fox jumps over the lazy dog".to_vec());
    let tag = URL_SAFE_NO_PAD.decode(tail).unwrap();
    let hex: String = tag.iter().map(|b| format!("{:02x}", b)).collect();
    assert_eq!(hex, "f7bc83f430538424b13298e6aa6fb143ef4d59a14946175997479dbc2d1a3cd8");
    assert!(encode_cursor_payload(&[0xfb, 0xff], b"key").starts_with("-_8."));
    assert_eq!(decode_message("aGk=").unwrap(), b"hi".to_vec());
    assert_eq!(STANDARD.decode(random_nonce()).unwrap().len(), 16);
}

#[test]
fn report_sections_merge_in_order() {
    let mut bundle = empty_bundle::<u32>("2026-06");
    let mut page = empty_bundle::<u32>("2026-06");
    page.monthly_inventory = vec![1, 2];
    page.stock_warnings = vec![9];
    merge(&mut bundle, page);
    let mut second = empty_bundle::<u32>("2026-06");
    second.monthly_inventory = vec![3];
    merge(&mut bundle, second);
    assert_eq!(bundle.monthly_inventory, vec![1, 2, 3]);
    assert_eq!(bundle.stock_warnings, vec![9]);
    assert_eq!(section_name(0), "monthlyInventory");
    assert_eq!(section_name(10), "stocktakeDifferences");
}

#[test]
fn limiter_reopens_a_window_once_it_has_passed() {
    let mut limiter = SecurityRateLimiter::default();
    for step in 0..5u128 {
        limiter.check_at("pair", "10.0.0.2", step).expect("allowed");
    }
    match limiter.check_at("pair", "10.0.0.2", 10).unwrap_err() {
        AppError::RateLimited(m) => assert_eq!(m, "安全操作尝试过于频繁，请稍后再试"),
        other => panic!("unexpected {:?}", other),
    }
    assert!(limiter.check_at("login", "10.0.0.2", 10).is_ok());
    assert!(limiter.check_at("pair", "10.0.0.2", PAIR_WINDOW_NANOS - 1).is_err());
    assert!(limiter.check_at("pair", "10.0.0.2", PAIR_WINDOW_NANOS).is_ok());
}

#[test]
fn proxy_addresses_are_normalized_and_deduplicated() {
    assert_eq!(normalize_proxy_url("  127.0.0.1:7890 "), "http://127.0.0.1:7890");
    assert_eq!(normalize_proxy_url("socks5://10.0.0.1:1080"), "socks5://10.0.0.1:1080");
    assert_eq!(normalize_proxy_url("https://proxy.local"), "https://proxy.local");
    assert_eq!(normalize_proxy_url("   "), "");
    let kept = dedupe_proxy_candidates(vec![
        ProxyCandidate { label: "A".to_string(), url: "http://x:1".to_string() },
        ProxyCandidate { label: "B".to_string(), url: "http://y:2".to_string() },
        ProxyCandidate { label: "C".to_string(), url: "http://x:1".to_string() },
    ]);
    let labels: Vec<&str> = kept.iter().map(|c| c.label.as_str()).collect();
    assert_eq!(labels, vec!["A", "B"]);
}

const SCUTIL_OUTPUT: &str = "<dictionary> {\r\n  ExceptionsList : <array> {\r\n    0 : *.local\r\n  }\r\n  HTTPEnable : 1\r\n  HTTPPort : 7890\r\n  HTTPProxy : 127.0.0.1\r\n  HTTPSEnable : 1\r\n  HTTPSPort : 7891\r\n  HTTPSProxy : 127.0.0.1\r\n  SOCKSEnable : 0\r\n  SOCKSPort : 1080\r\n  SOCKSProxy : 127.0.0.1\r\n}\r\n";

#[test]
fn scutil_values_are_read_from_the_first_matching_line() {
    assert_eq!(proxy_value(SCUTIL_OUTPUT, "HTTPSProxy"), "127.0.0.1");
    assert_eq!(proxy_value(SCUTIL_OUTPUT, "HTTPSPort"), "7891");
    assert_eq!(proxy_value(SCUTIL_OUTPUT, "HTTPPort"), "7890");
    assert_eq!(proxy_value(SCUTIL_OUTPUT, "FTPProxy"), "");
    assert_eq!(proxy_value("a : b : c\n", "a"), "b");
    assert_eq!(proxy_value("key without colon\n", "key"), "");
    assert!(proxy_flag(SCUTIL_OUTPUT, "HTTPSEnable"));
    assert!(!proxy_flag(SCUTIL_OUTPUT, "SOCKSEnable"));
    let pairs = mac_proxy_pairs(SCUTIL_OUTPUT);
    assert_eq!(
        pairs,
        vec![
            ("macOS HTTPS 系统代理".to_string(), "http://127.0.0.1:7891".to_string()),
            ("macOS HTTP 系统代理".to_string(), "http://127.0.0.1:7890".to_string()),
        ]
    );
}

#[test]
fn netsh_tokens_offer_http_https_and_bare_proxies() {
    assert_eq!(split_whitespace("  a\tb \n c  "), vec!["a", "b", "c"]);
    assert!(split_whitespace(" \n ").is_empty());
    let text = "Current WinHTTP proxy settings:\r\n\r\n    Proxy Server(s) :  http=10.0.0.1:8080 https=10.0.0.1:8443 10.2.2.2:3128 C:\\proxy\r\n    Bypass List     :  (none)\r\n";
    assert_eq!(
        windows_proxy_pairs(text),
        vec![
            ("Windows WinHTTP HTTP 代理".to_string(), "10.0.0.1:8080".to_string()),
            ("Windows WinHTTP HTTPS 代理".to_string(), "10.0.0.1:8443".to_string()),
            ("Windows WinHTTP 代理".to_string(), "10.2.2.2:3128".to_string()),
        ]
    );
}

#[test]
fn system_proxy_candidates_list_environment_platform_then_common_ports() {
    let env = vec![
        ("HTTPS_PROXY".to_string(), "127.0.0.1:7890".to_string()),
        ("http_proxy".to_string(), " ".to_string()),
    ];
    let platform = PlatformProxyOutput::WindowsNetsh("Proxy Server(s) : 10.1.1.1:8080".to_string());
    let candidates = get_system_proxy_candidates(&env, &platform);
    let urls: Vec<&str> = candidates.iter().map(|c| c.url.as_str()).collect();
    assert_eq!(
        urls,
        vec![
            "http://127.0.0.1:7890",
            "http://10.1.1.1:8080",
            "http://127.0.0.1:7897",
            "http://127.0.0.1:7899",
            "http://127.0.0.1:1080",
            "http://127.0.0.1:10808",
            "http://127.0.0.1:20171",
        ]
    );
    assert_eq!(candidates[0].label, "HTTPS_PROXY");
    assert_eq!(candidates[1].label, "Windows WinHTTP 代理");
    assert_eq!(candidates[2].label, "常见本地代理");
    let mac = get_system_proxy_candidates(&Vec::new(), &PlatformProxyOutput::MacScutil(SCUTIL_OUTPUT.to_string()));
    assert_eq!(mac[0].url, "http://127.0.0.1:7891");
    assert_eq!(mac[1].url, "http://127.0.0.1:7890");
    assert_eq!(mac.len(), 7);
    let none = get_system_proxy_candidates(&Vec::new(), &PlatformProxyOutput::Unavailable);
    assert_eq!(none.len(), 6);
}

#[test]
fn stock_balance_page_parameters_come_from_the_query() {
    let query = StockBalanceQuery {
        search: Some("  Towel ".to_string()),
        category_id: Some(" ".to_string()),
        item_id: Some("item-1".to_string()),
        stock_status: Some(" low ".to_string()),
    };
    let filter = stock_balance_filter(&query);
    assert_eq!(filter.like, "%Towel%");
    assert_eq!(filter.category_id, None);
    assert_eq!(filter.item_id.as_deref(), Some("item-1"));
    assert_eq!(filter.stock_status.as_deref(), Some("low"));
    assert_eq!(filter.scope, "stock-balances:towel::item-1:low");
    let empty = stock_balance_filter(&StockBalanceQuery {
        search: None,
        category_id: None,
        item_id: None,
        stock_status: None,
    });
    assert_eq!(empty.like, "%%");
    assert_eq!(empty.scope, "stock-balances::::");
    let seen = RefCell::new(String::new());
    let page = list_stock_balances_page(&query, Some("next"), &|f: &aster_core::stock_queries::StockBalanceFilter,
                                                               c: Option<&str>|
     -> AppResult<Page<u32>> {
        *seen.borrow_mut() = format!("{}|{}", f.scope, c.unwrap_or(""));
        Ok(Page { items: vec![7], next_cursor: None })
    })
    .unwrap();
    assert_eq!(page.items, vec![7]);
    assert_eq!(seen.into_inner(), "stock-balances:towel::item-1:low|next");
}

#[test]
fn batch_listing_needs_an_item_and_scopes_by_it() {
    let fetch = |id: &str, scope: &str, _c: Option<&str>| -> AppResult<Page<String>> {
        Ok(Page { items: vec![format!("{}|{}", id, scope)], next_cursor: None })
    };
    let page = list_stock_batches_page("  item-9 ", None, &fetch).unwrap();
    assert_eq!(page.items, vec!["item-9|stock-batches:item-9".to_string()]);
    assert_eq!(
        validation_message(failure(list_stock_batches_page("   ", None, &fetch))),
        "物品 ID 不能为空"
    );
}

struct MemoryStore {
    passwords: RefCell<HashMap<(String, String), String>>,
    loads: Cell<usize>,
}

impl MemoryStore {
    fn new() -> Self {
        MemoryStore { passwords: RefCell::new(HashMap::new()), loads: Cell::new(0) }
    }
}

impl CredentialStore for MemoryStore {
    fn load_password(&self, scope: &str, username: &str) -> AppResult<Option<String>> {
        self.loads.set(self.loads.get() + 1);
        Ok(self.passwords.borrow().get(&(scope.to_string(), username.to_string())).cloned())
    }

    fn save_password(&self, scope: &str, username: &str, password: &str) -> AppResult<()> {
        self.passwords
            .borrow_mut()
            .insert((scope.to_string(), username.to_string()), password.to_string());
        Ok(())
    }

    fn delete_password(&self, scope: &str, username: &str) -> AppResult<()> {
        self.passwords.borrow_mut().remove(&(scope.to_string(), username.to_string()));
        Ok(())
    }
}

#[test]
fn remembered_logins_use_the_normalized_name() {
    let store = MemoryStore::new();
    assert_eq!(normalize_username("  Front.Desk "), "front.desk");
    save_to(
        &store,
        SavedCredentialRequest { username: " Front.Desk ".to_string(), password: "pw-1".to_string() },
        || Ok("local-abc".to_string()),
    )
    .unwrap();
    let loaded = load_from(&store, "FRONT.DESK".to_string(), || Ok("local-abc".to_string()))
        .unwrap()
        .expect("remembered");
    assert_eq!(loaded.username, "front.desk");
    assert_eq!(loaded.password, "pw-1");
    delete_from(&store, "front.desk".to_string(), || Ok("local-abc".to_string())).unwrap();
    assert!(load_from(&store, "front.desk".to_string(), || Ok("local-abc".to_string()))
        .unwrap()
        .is_none());
}

#[test]
fn blank_logins_never_ask_for_the_scope() {
    let store = MemoryStore::new();
    let refuse = || -> AppResult<String> { panic!("scope must not be computed") };
    assert!(load_from(&store, "   ".to_string(), refuse).unwrap().is_none());
    assert!(delete_from(&store, " ".to_string(), refuse).is_ok());
    let error = save_to(
        &store,
        SavedCredentialRequest { username: "user".to_string(), password: String::new() },
        refuse,
    )
    .unwrap_err();
    assert_eq!(validation_message(error), "用户名和密码不能为空");
    let failing = || -> AppResult<String> { Err(AppError::Validation("scope failed".to_string())) };
    assert_eq!(
        validation_message(failure(load_from(&store, "user".to_string(), failing))),
        "scope failed"
    );
}

#[test]
fn credential_scope_prefers_the_host_fingerprint_in_client_mode() {
    let remote = credential_scope(true, Some("ab:cd".to_string()), Some("s1".to_string()));
    assert_eq!(remote.scope, "remote-ab:cd");
    assert_eq!(remote.new_scope_id, None);
    let blank = credential_scope(true, Some("  ".to_string()), Some("s1".to_string()));
    assert_eq!(blank.scope, "local-s1");
    let local = credential_scope(false, Some("ab:cd".to_string()), Some("s1".to_string()));
    assert_eq!(local.scope, "local-s1");
    let fresh = credential_scope(false, None, None);
    let id = fresh.new_scope_id.expect("a new scope id");
    assert_eq!(id.len(), 36);
    assert_eq!(fresh.scope, format!("local-{}", id));
}

#[test]
fn secret_cache_keeps_each_secret_apart() {
    let mut cache = SecretCache::new();
    assert_eq!(cache.get(ApplicationSecret::ClientToken), None);
    cache.set(ApplicationSecret::ClientToken, Some("t".to_string()));
    assert_eq!(cache.get(ApplicationSecret::ClientToken), Some(Some("t".to_string())));
    assert_eq!(cache.get(ApplicationSecret::SmtpPassword), None);
    assert_eq!(ApplicationSecret::ClientToken.credential_name(), "client-pairing-token");
    assert_eq!(ApplicationSecret::SmtpPassword.credential_name(), "smtp-password");
    assert_eq!(ApplicationSecret::ClientToken.legacy_setting(), "client_token");
    assert_eq!(ApplicationSecret::SmtpPassword.legacy_setting(), "smtp_password");
}

#[test]
fn saved_secret_is_loaded_from_the_cache() {
    let store = MemoryStore::new();
    let mut caches = SecretCaches::new();
    let read = |_: &str| -> AppResult<Option<String>> { Ok(None) };
    let retire = |_: &str, _: bool| -> AppResult<()> { Ok(()) };
    save(&mut caches, &store, APPLICATION_SCOPE, ApplicationSecret::SmtpPassword, "smtp-1").unwrap();
    let loaded = load(&mut caches, &store, APPLICATION_SCOPE, ApplicationSecret::SmtpPassword, &read, &retire)
        .unwrap();
    assert_eq!(loaded.as_deref(), Some("smtp-1"));
    assert_eq!(store.loads.get(), 0);
    let other = load(&mut caches, &store, "other-scope", ApplicationSecret::SmtpPassword, &read, &retire)
        .unwrap();
    assert_eq!(other, None);
    assert_eq!(store.loads.get(), 1);
    delete(&mut caches, &store, APPLICATION_SCOPE, ApplicationSecret::SmtpPassword).unwrap();
    let gone = load(&mut caches, &store, APPLICATION_SCOPE, ApplicationSecret::SmtpPassword, &read, &retire)
        .unwrap();
    assert_eq!(gone, None);
    assert_eq!(store.loads.get(), 1);
}

#[test]
fn legacy_setting_moves_into_the_key_ring() {
    let store = MemoryStore::new();
    let mut caches = SecretCaches::new();
    let retired = RefCell::new(Vec::new());
    let read = |name: &str| -> AppResult<Option<String>> {
        assert_eq!(name, "smtp_password");
        Ok(Some("legacy-pw".to_string()))
    };
    let retire = |name: &str, configured: bool| -> AppResult<()> {
        retired.borrow_mut().push((name.to_string(), configured));
        Ok(())
    };
    let loaded = load(&mut caches, &store, APPLICATION_SCOPE, ApplicationSecret::SmtpPassword, &read, &retire)
        .unwrap();
    assert_eq!(loaded.as_deref(), Some("legacy-pw"));
    assert_eq!(retired.borrow().clone(), vec![("smtp_password".to_string(), true)]);
    assert_eq!(
        store
            .passwords
            .borrow()
            .get(&("application".to_string(), "smtp-password".to_string()))
            .cloned(),
        Some("legacy-pw".to_string())
    );
}

#[test]
fn empty_legacy_setting_is_not_migrated() {
    let store = MemoryStore::new();
    let mut caches = SecretCaches::new();
    let read = |_: &str| -> AppResult<Option<String>> { Ok(Some(String::new())) };
    let retire = |_: &str, _: bool| -> AppResult<()> { panic!("nothing to retire") };
    let loaded = load(&mut caches, &store, APPLICATION_SCOPE, ApplicationSecret::ClientToken, &read, &retire)
        .unwrap();
    assert_eq!(loaded, None);
    assert!(store.passwords.borrow().is_empty());
}

fn registration(code: &str) -> PairingRegistration {
    PairingRegistration {
        id: "reg-1".to_string(),
        code: code.to_string(),
        server_setup: vec![1, 2, 3],
        password_file: vec![4, 5],
    }
}

fn start_request() -> PairStartRequest {
    PairStartRequest {
        client_name: "前台电脑".to_string(),
        client_device_id: "device-1".to_string(),
        app_version: "1.2.0".to_string(),
        client_nonce: random_nonce(),
        ke1: "a2Ux".to_string(),
    }
}

#[test]
fn pairing_exchange_is_single_use() {
    let mut runtime = PairingRuntime::initialize(registration("123456789012"));
    assert_eq!(runtime.code(), Some("123456789012"));
    let request = start_request();
    let plan = runtime.prepare_begin(&request, "fp-1").unwrap();
    assert_eq!(plan.registration_id, "reg-1");
    assert_eq!(plan.server_setup, vec![1, 2, 3]);
    assert_eq!(plan.password_file, vec![4, 5]);
    assert!(validate_nonce(&plan.server_nonce).is_ok());
    let expected = pairing_context("fp-1", "device-1", &request.client_nonce, &plan.server_nonce);
    assert_eq!(plan.context, expected);
    let id = runtime.record_exchange(
        plan.registration_id.clone(),
        request,
        "10.0.0.9".to_string(),
        plan.context.clone(),
        vec![42],
    );
    let exchange = runtime.take_exchange(&format!(" {} ", id)).unwrap();
    assert_eq!(exchange.server_state, vec![42]);
    let verified = verified_pairing(exchange);
    assert_eq!(verified.client_ip, "10.0.0.9");
    assert_eq!(verified.client_name, "前台电脑");
    assert_eq!(
        validation_message(failure(runtime.take_exchange(&id))),
        "配对验证失败，请检查配对码后重试"
    );
}

#[test]
fn new_pairing_code_drops_started_exchanges() {
    let mut runtime = PairingRuntime::initialize(registration("123456789012"));
    let request = start_request();
    let plan = runtime.prepare_begin(&request, "fp-1").unwrap();
    let id = runtime.record_exchange(plan.registration_id, request, "10.0.0.9".to_string(), plan.context, vec![]);
    runtime.install_registration("999999999999".to_string(), vec![7], vec![8]);
    assert_eq!(runtime.code(), Some("999999999999"));
    assert!(runtime.take_exchange(&id).is_err());
}

#[test]
fn expired_exchange_is_refused() {
    let mut runtime = PairingRuntime::initialize(registration("123456789012"));
    let request = start_request();
    let plan = runtime.prepare_begin(&request, "fp-1").unwrap();
    let id = runtime.record_exchange(plan.registration_id, request, "10.0.0.9".to_string(), plan.context, vec![]);
    runtime.remove_expired_at(u128::MAX);
    assert!(runtime.take_exchange(&id).is_err());
}

#[test]
fn start_requests_are_checked_before_any_exchange() {
    let mut runtime = PairingRuntime::initialize(registration("123456789012"));
    let mut bad_nonce = start_request();
    bad_nonce.client_nonce = STANDARD.encode(b"short");
    assert!(runtime.prepare_begin(&bad_nonce, "fp-1").is_err());
    let mut blank_name = start_request();
    blank_name.client_name = "  ".to_string();
    assert!(runtime.prepare_begin(&blank_name, "fp-1").is_err());
    assert!(validate_client_metadata(&"n".repeat(80), "d").is_ok());
    assert!(validate_client_metadata(&"n".repeat(81), "d").is_err());
    assert!(validate_client_metadata("n", &"d".repeat(129)).is_err());
    assert!(decode_message("not base64!").is_err());
    assert_eq!(decode_message("aGk=").unwrap(), b"hi".to_vec());
}

#[test]
fn generated_identifiers_have_their_shapes() {
    let code = generate_pair_code();
    assert_eq!(code.len(), 12);
    assert!(code.chars().all(|c| c.is_ascii_digit()));
    assert!(!code.starts_with('0'));
    let id = new_id();
    assert_eq!(id.len(), 36);
    assert_ne!(id, new_id());
    assert!(validate_nonce(&random_nonce()).is_ok());
}

#[test]
fn report_page_fills_only_its_section() {
    let page = get_page(
        "2026-06",
        "outboundDetails",
        "{\"month\":\"2026-06\"}",
        |scope: &str| -> AppResult<i64> {
            assert_eq!(scope, "report:outboundDetails:{\"month\":\"2026-06\"}");
            Ok(500)
        },
        |scope: &str, source: usize, offset: i64| -> AppResult<Page<u32>> {
            assert_eq!(scope, "report:outboundDetails:{\"month\":\"2026-06\"}");
            assert_eq!((source, offset), (2, 500));
            Ok(Page { items: vec![7], next_cursor: Some("c".to_string()) })
        },
    )
    .unwrap();
    assert_eq!(page.section, "outboundDetails");
    assert_eq!(page.bundle.month, "2026-06");
    assert_eq!(page.bundle.outbound_details, vec![7]);
    assert!(page.bundle.department_details.is_empty());
    assert_eq!(page.next_cursor.as_deref(), Some("c"));
    let stock = get_page("2026-06", "stockBalances", "{}", |_: &str| Ok(0), |_: &str, source: usize, _: i64| -> AppResult<Page<u32>> {
        assert_eq!(source, 8);
        Ok(Page { items: vec![1, 2], next_cursor: None })
    })
    .unwrap();
    assert_eq!(stock.bundle.stock_balances, vec![1, 2]);
    let unknown = get_page("2026-06", "profitAndLoss", "{}", |_: &str| Ok(0), |_: &str, _: usize, _: i64| -> AppResult<Page<u32>> {
        panic!("unknown sections are not read")
    });
    assert_eq!(validation_message(failure(unknown)), "未知报表分页 section");
    let refused = get_page("2026-06", "stockBalances", "{}", |_: &str| Err(AppError::Validation("分页游标无效或不属于当前查询".to_string())), |_: &str, _: usize, _: i64| -> AppResult<Page<u32>> {
        panic!("an invalid cursor reads nothing")
    });
    assert_eq!(validation_message(failure(refused)), "分页游标无效或不属于当前查询");
    assert_eq!(section_index("salesProfit"), Some(7));
    assert_eq!(section_index("sales"), None);
}

#[test]
fn a_default_pairing_runtime_has_no_code_in_force() {
    let mut runtime = PairingRuntime::default();
    assert!(runtime.code().is_none());
    runtime.install_registration("123456".to_string(), vec![1], vec![2]);
    assert_eq!(runtime.code(), Some("123456"));
}
