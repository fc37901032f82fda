use wandering_inn_scraper::web::app::{
    admin_password, client_key, csrf_ok, login_attempt, logout_cookie_value, session_cookie_for, session_token,
    LoginOutcome,
};
use wandering_inn_scraper::web::auth::{hash_password, RateLimiter, SessionStore};

#[test]
fn session_token_is_read_from_the_cookie_header() {
    assert_eq!(session_token("scraper_session=abc"), Some("abc".to_string()));
    assert_eq!(session_token("theme=dark; scraper_session=abc=def; other=1"), Some("abc=def".to_string()));
    assert_eq!(session_token("scraper_session_x=1;  scraper_session = 2"), None);
    assert_eq!(session_token("  scraper_session=first ;scraper_session=second"), Some("first".to_string()));
    assert_eq!(session_token("scraper_session"), None);
    assert_eq!(session_token(""), None);
    assert_eq!(session_token("scraper_session="), Some(String::new()));
}

#[test]
fn forwarded_for_is_honoured_only_when_trusted() {
    assert_eq!(client_key(false, Some("203.0.113.9"), "192.0.2.1"), "192.0.2.1");
    assert_eq!(client_key(true, Some(" 203.0.113.9 , 10.0.0.1"), "192.0.2.1"), "203.0.113.9");
    assert_eq!(client_key(true, None, "192.0.2.1"), "192.0.2.1");
    assert_eq!(client_key(true, Some(""), "192.0.2.1"), "");
}

#[test]
fn session_cookies_are_hardened() {
    assert_eq!(session_cookie_for("t", false), "scraper_session=t; HttpOnly; SameSite=Strict; Path=/");
    assert_eq!(session_cookie_for("t", true), "scraper_session=t; HttpOnly; SameSite=Strict; Path=/; Secure");
    assert_eq!(logout_cookie_value(), "scraper_session=; HttpOnly; SameSite=Strict; Path=/; Max-Age=0");
}

#[test]
fn csrf_needs_the_sessions_non_empty_token() {
    assert!(csrf_ok(&Some("tok".to_string()), "tok"));
    assert!(!csrf_ok(&Some("tok".to_string()), "other"));
    assert!(!csrf_ok(&Some(String::new()), ""));
    assert!(!csrf_ok(&None, ""));
}

#[test]
fn login_opens_a_session_only_for_the_right_password() {
    let credential = hash_password("hunter2hunter2").unwrap();
    let mut limiter = RateLimiter::new(2, 900_000);
    let mut sessions = SessionStore::new(3_600_000);

    assert!(matches!(
        login_attempt(&mut limiter, &mut sessions, &credential, "192.0.2.1", "wrong", false),
        LoginOutcome::WrongPassword
    ));
    match login_attempt(&mut limiter, &mut sessions, &credential, "192.0.2.1", "hunter2hunter2", true) {
        LoginOutcome::SignedIn { token, cookie } => {
            assert!(sessions.validate(&token));
            assert!(cookie.ends_with("; Secure"));
        }
        _ => panic!("the right password signs in"),
    }
    assert!(matches!(
        login_attempt(&mut limiter, &mut sessions, &credential, "192.0.2.1", "hunter2hunter2", false),
        LoginOutcome::TooManyAttempts
    ));
}

#[test]
fn admin_passwords_are_trimmed_and_at_least_twelve_bytes() {
    assert_eq!(admin_password("  correct horse \n").unwrap(), "correct horse");
    assert_eq!(admin_password("short\n").unwrap_err(), "password must be at least 12 characters");
    assert!(admin_password("éééééé").is_ok(), "twelve bytes in six characters");
}
