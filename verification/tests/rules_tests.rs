use hr_service::auth::{bearer_token, request_token, user_from_claims, AuthError, AuthUser};
use hr_service::config::{
    limiter_period_ms, limiter_rate_in_range, parse_decimal, setting, Config, ConfigError,
    Environment,
};
use hr_service::jwt::{claims_from, expiry, fresh_claims, is_refresh, issue_claims, Subject};
use hr_service::leave::{check_leave, validate_leave_type, LeaveError, LeaveType};
use hr_service::listing::{
    employee_count_sql, employee_filter, employee_page_sql, employee_window, leave_conditions,
    leave_count_sql, leave_page_sql, leave_window, payroll_window, window, EmployeeQuery,
    FilterValue, LeaveFilter, PayrollQuery, Window, MAX_PAGE_SIZE,
};
use hr_service::models::{Claims, TokenType};
use hr_service::password::{check, hash_password, hash_under, verify_password, PasswordError};
use hr_service::registration::{
    check_credentials, reply_after_claim, reply_after_lookup, RegisterReply,
};
use hr_service::resolver::{Availability, ClaimResult};
use hr_service::role::Role;
use hr_service::session::{
    begin_logout, logout_after_verification, Login, LoginAction, LoginEvent, LoginReply,
    LogoutAction, RecordLookup, Refresh, RefreshAction, RefreshEvent, RefreshReply, UserLookup,
};
use hr_service::sql_update::{
    build_update_sql, field_value, text_value, Field, JsonField, Payload, SqlValue, UpdateError,
};
use hr_service::token::{join, normalize};

fn user(role: Role, employee_id: Option<u64>) -> AuthUser {
    AuthUser { user_id: 7, username: "pat".to_string(), role, employee_id }
}

fn claims(role: u8, token_type: TokenType) -> Claims {
    Claims {
        user_id: 7,
        sub: "pat".to_string(),
        role,
        exp: 2_000_000_000,
        jti: "id-1".to_string(),
        token_type,
        employee_id: Some(1000),
    }
}

#[test]
fn normalize_lowers_case() {
    assert_eq!(normalize("Alice"), "alice");
    assert_eq!(normalize("ALICE"), "alice");
    assert_eq!(normalize("alice"), "alice");
    assert_eq!(normalize("ÉMILE"), "émile");
    assert_eq!(normalize(""), "");
    assert_eq!(normalize(" Bob "), " bob ");
}

#[test]
fn join_puts_the_separator_between_parts() {
    let parts = |v: &[&str]| v.iter().map(|s| s.to_string()).collect::<Vec<_>>();
    assert_eq!(join(&parts(&[]), ", "), "");
    assert_eq!(join(&parts(&["a"]), ", "), "a");
    assert_eq!(join(&parts(&["a", "b", "c"]), ", "), "a, b, c");
    assert_eq!(join(&parts(&["", ""]), "-"), "-");
}

#[test]
fn roles_have_the_numbers_1_to_5() {
    assert_eq!(Role::from_id(1), Some(Role::Admin));
    assert_eq!(Role::from_id(2), Some(Role::Hr));
    assert_eq!(Role::from_id(3), Some(Role::Employee));
    assert_eq!(Role::from_id(4), Some(Role::System));
    assert_eq!(Role::from_id(5), Some(Role::ApiUser));
    assert_eq!(Role::from_id(0), None);
    assert_eq!(Role::from_id(6), None);
    assert_eq!(Role::from_id(255), None);
    for id in 1..=5u8 {
        assert_eq!(Role::from_id(id).map(|r| r.id()), Some(id));
    }
}

#[test]
fn bearer_token_follows_the_scheme_word() {
    assert_eq!(bearer_token("Bearer abc.def"), Some("abc.def"));
    assert_eq!(bearer_token("Bearer "), Some(""));
    assert_eq!(bearer_token("bearer abc"), None);
    assert_eq!(bearer_token("Bearer"), None);
    assert_eq!(bearer_token("Basic abc"), None);
    assert_eq!(bearer_token(""), None);
}

#[test]
fn request_token_names_what_is_wrong_with_the_header() {
    assert_eq!(request_token(Some(Some("Bearer tok"))), Ok("tok"));
    assert_eq!(request_token(None), Err(AuthError::MissingHeader));
    assert_eq!(request_token(Some(None)), Err(AuthError::InvalidEncoding));
    assert_eq!(request_token(Some(Some("Token tok"))), Err(AuthError::NotBearer));
}

#[test]
fn claims_with_a_known_role_give_a_user() {
    assert_eq!(
        user_from_claims(claims(2, TokenType::Access)),
        Ok(AuthUser {
            user_id: 7,
            username: "pat".to_string(),
            role: Role::Hr,
            employee_id: Some(1000)
        })
    );
    assert_eq!(user_from_claims(claims(0, TokenType::Access)), Err(AuthError::InvalidRole));
    assert_eq!(user_from_claims(claims(9, TokenType::Access)), Err(AuthError::InvalidRole));
}

#[test]
fn access_rules_follow_the_role() {
    assert_eq!(user(Role::Admin, None).require_admin(), Ok(()));
    for role in [Role::Hr, Role::Employee, Role::System, Role::ApiUser] {
        assert_eq!(user(role, None).require_admin(), Err(AuthError::AdminOnly));
    }
    assert_eq!(user(Role::Admin, None).require_hr_or_admin(), Ok(()));
    assert_eq!(user(Role::Hr, None).require_hr_or_admin(), Ok(()));
    for role in [Role::Employee, Role::System, Role::ApiUser] {
        assert_eq!(user(role, None).require_hr_or_admin(), Err(AuthError::HrOrAdminOnly));
    }
    assert!(user(Role::Employee, None).is_employee());
    assert!(!user(Role::Hr, None).is_employee());
    assert_eq!(AuthError::AdminOnly.status(), 403);
    assert_eq!(AuthError::HrOrAdminOnly.status(), 403);
    assert_eq!(AuthError::MissingHeader.status(), 401);
    assert_eq!(AuthError::InvalidToken.status(), 401);
    assert_eq!(AuthError::InvalidRole.status(), 401);
}

#[test]
fn leave_types_have_their_words() {
    assert_eq!(LeaveType::Annual.as_str(), "annual");
    assert_eq!(LeaveType::Sick.as_str(), "sick");
    assert_eq!(LeaveType::Unpaid.as_str(), "unpaid");
    for kind in [LeaveType::Annual, LeaveType::Sick, LeaveType::Unpaid] {
        assert!(validate_leave_type(&kind));
    }
}

#[test]
fn leave_requests_are_checked() {
    let employee = user(Role::Employee, Some(1000));
    assert_eq!(check_leave(&employee, 10, 12, &LeaveType::Sick), Ok(1000));
    assert_eq!(check_leave(&employee, 10, 10, &LeaveType::Annual), Ok(1000));
    assert_eq!(check_leave(&employee, 11, 10, &LeaveType::Annual), Err(LeaveError::StartAfterEnd));
    let outsider = user(Role::Employee, None);
    assert_eq!(
        check_leave(&outsider, 11, 10, &LeaveType::Unpaid),
        Err(LeaveError::NoEmployeeProfile)
    );
    assert_eq!(
        check_leave(&outsider, 1, 2, &LeaveType::Unpaid),
        Err(LeaveError::NoEmployeeProfile)
    );
}

#[test]
fn windows_clamp_page_and_size() {
    assert_eq!(MAX_PAGE_SIZE, 100);
    assert_eq!(window(None, None, 20, 1), Window { page: 1, per_page: 20, offset: 0 });
    assert_eq!(window(Some(0), Some(0), 20, 1), Window { page: 1, per_page: 1, offset: 0 });
    assert_eq!(window(Some(3), Some(25), 20, 1), Window { page: 3, per_page: 25, offset: 50 });
    assert_eq!(window(Some(2), Some(1000), 20, 1), Window { page: 2, per_page: 100, offset: 100 });
    assert_eq!(window(Some(5), Some(0), 10, 0), Window { page: 5, per_page: 0, offset: 0 });
    assert_eq!(
        window(Some(u64::MAX), Some(100), 10, 0),
        Window { page: u64::MAX, per_page: 100, offset: u64::MAX }
    );
}

#[test]
fn listings_have_their_defaults() {
    let employees = EmployeeQuery {
        page: None,
        per_page: None,
        department_id: None,
        job_title_id: None,
        status: None,
        search: None,
    };
    assert_eq!(employee_window(&employees), Window { page: 1, per_page: 20, offset: 0 });
    let employees = EmployeeQuery { page: Some(u32::MAX), per_page: Some(500), ..employees };
    assert_eq!(
        employee_window(&employees),
        Window { page: 4_294_967_295, per_page: 100, offset: 429_496_729_400 }
    );
    let payrolls = PayrollQuery { page: Some(4), per_page: None, employee_id: Some(3) };
    assert_eq!(payroll_window(&payrolls), Window { page: 4, per_page: 10, offset: 30 });
    let payrolls = PayrollQuery { page: Some(0), per_page: Some(0), employee_id: None };
    assert_eq!(payroll_window(&payrolls), Window { page: 1, per_page: 1, offset: 0 });
    let leaves = LeaveFilter { employee_id: None, status: None, page: Some(2), per_page: None };
    assert_eq!(leave_window(&leaves), Window { page: 2, per_page: 10, offset: 10 });
    let leaves = LeaveFilter { employee_id: None, status: None, page: None, per_page: Some(0) };
    assert_eq!(leave_window(&leaves), Window { page: 1, per_page: 0, offset: 0 });
}

#[test]
fn employee_filter_without_criteria_has_no_clause() {
    let query = EmployeeQuery {
        page: None,
        per_page: None,
        department_id: None,
        job_title_id: None,
        status: None,
        search: None,
    };
    let found = employee_filter(&query);
    assert_eq!(found.where_sql, "");
    assert_eq!(found.args, vec![]);
    assert_eq!(employee_count_sql(&found.where_sql), "SELECT COUNT(*) as total FROM employees ");
    assert_eq!(
        employee_page_sql(&found.where_sql),
        "SELECT * FROM employees  ORDER BY id DESC LIMIT ? OFFSET ?"
    );
}

#[test]
fn employee_filter_joins_every_criterion() {
    let query = EmployeeQuery {
        page: None,
        per_page: None,
        department_id: Some(10),
        job_title_id: Some(3),
        status: Some("active".to_string()),
        search: Some("doe".to_string()),
    };
    let found = employee_filter(&query);
    assert_eq!(
        found.where_sql,
        "WHERE department_id = ? AND job_title_id = ? AND status = ? AND (first_name LIKE ? OR last_name LIKE ? OR email LIKE ?)"
    );
    assert_eq!(
        found.args,
        vec![
            FilterValue::U64(10),
            FilterValue::U64(3),
            FilterValue::Str("active".to_string()),
            FilterValue::Str("%doe%".to_string()),
            FilterValue::Str("%doe%".to_string()),
            FilterValue::Str("%doe%".to_string()),
        ]
    );
    let only_search = EmployeeQuery {
        page: None,
        per_page: None,
        department_id: None,
        job_title_id: None,
        status: None,
        search: Some("".to_string()),
    };
    let found = employee_filter(&only_search);
    assert_eq!(found.where_sql, "WHERE (first_name LIKE ? OR last_name LIKE ? OR email LIKE ?)");
    assert_eq!(found.args.len(), 3);
    assert_eq!(found.args[0], FilterValue::Str("%%".to_string()));
    assert_eq!(
        employee_count_sql(&found.where_sql),
        "SELECT COUNT(*) as total FROM employees WHERE (first_name LIKE ? OR last_name LIKE ? OR email LIKE ?)"
    );
}

#[test]
fn leave_conditions_narrow_a_clause_that_always_holds() {
    let all = LeaveFilter { employee_id: None, status: None, page: None, per_page: None };
    let found = leave_conditions(&all);
    assert_eq!(found.where_sql, " WHERE 1=1");
    assert_eq!(found.args, vec![]);
    let narrow = LeaveFilter {
        employee_id: Some(123),
        status: Some("pending".to_string()),
        page: None,
        per_page: None,
    };
    let found = leave_conditions(&narrow);
    assert_eq!(found.where_sql, " WHERE 1=1 AND employee_id = ? AND status = ?");
    assert_eq!(
        found.args,
        vec![FilterValue::U64(123), FilterValue::Str("pending".to_string())]
    );
    assert_eq!(
        leave_count_sql(&found.where_sql),
        "SELECT COUNT(*) FROM leave_requests WHERE 1=1 AND employee_id = ? AND status = ?"
    );
    assert_eq!(
        leave_page_sql(" WHERE 1=1"),
        "SELECT id, employee_id, start_date, end_date, leave_type, status, created_at FROM leave_requests WHERE 1=1 ORDER BY created_at DESC LIMIT ? OFFSET ?"
    );
    let by_status =
        LeaveFilter { employee_id: None, status: Some("x".to_string()), page: None, per_page: None };
    assert_eq!(leave_conditions(&by_status).where_sql, " WHERE 1=1 AND status = ?");
}

fn field(name: &str, value: JsonField) -> Field {
    Field { name: name.to_string(), value }
}

#[test]
fn update_statement_names_every_field() {
    let payload = Payload::Object(vec![
        field("first_name", JsonField::Text("John".to_string())),
        field("department_id", JsonField::Integer(10)),
        field("active", JsonField::Bool(true)),
        field("phone", JsonField::Null),
        field("ratio", JsonField::Real(0x3FF8_0000_0000_0000)),
    ]);
    let update = build_update_sql("employees", &payload, "id", 42).unwrap();
    assert_eq!(
        update.sql,
        "UPDATE employees SET first_name = ?, department_id = ?, active = ?, phone = ?, ratio = ? WHERE id = ?"
    );
    assert_eq!(
        update.values,
        vec![
            SqlValue::String("John".to_string()),
            SqlValue::I64(10),
            SqlValue::Bool(true),
            SqlValue::Null,
            SqlValue::F64(0x3FF8_0000_0000_0000),
            SqlValue::I64(42),
        ]
    );
}

#[test]
fn update_statement_of_one_field() {
    let payload = Payload::Object(vec![field("status", JsonField::Text("left".to_string()))]);
    let update = build_update_sql("employees", &payload, "id", -1).unwrap();
    assert_eq!(update.sql, "UPDATE employees SET status = ? WHERE id = ?");
    assert_eq!(update.values, vec![SqlValue::String("left".to_string()), SqlValue::I64(-1)]);
}

#[test]
fn update_needs_an_object_with_supported_fields() {
    assert_eq!(
        build_update_sql("employees", &Payload::Other, "id", 1),
        Err(UpdateError::NotAnObject)
    );
    assert_eq!(
        build_update_sql("employees", &Payload::Object(vec![]), "id", 1),
        Err(UpdateError::NoFields)
    );
    let nested = Payload::Object(vec![
        field("a", JsonField::Integer(1)),
        field("b", JsonField::Nested),
        field("c", JsonField::Null),
    ]);
    assert_eq!(build_update_sql("employees", &nested, "id", 1), Err(UpdateError::UnsupportedValue));
}

#[test]
fn texts_that_name_a_date_are_bound_as_dates() {
    // 1 January 1970 is day 719163 of the calendar
    assert_eq!(
        field_value(&JsonField::Text("1970-01-01".to_string())),
        Some(SqlValue::Date(719_163))
    );
    assert_eq!(
        field_value(&JsonField::Text("2026-01-01".to_string())),
        Some(SqlValue::Date(719_163 + 20_454))
    );
    assert_eq!(
        field_value(&JsonField::Text("1970-01-02T00:00:01".to_string())),
        Some(SqlValue::DateTime(86_401, 0))
    );
    assert_eq!(
        field_value(&JsonField::Text("2026-02-30".to_string())),
        Some(SqlValue::String("2026-02-30".to_string()))
    );
    assert_eq!(
        field_value(&JsonField::Text("John".to_string())),
        Some(SqlValue::String("John".to_string()))
    );
    assert_eq!(field_value(&JsonField::Nested), None);
    assert_eq!(field_value(&JsonField::Integer(-5)), Some(SqlValue::I64(-5)));
}

#[test]
fn a_date_goes_before_a_date_and_time_and_both_before_the_text() {
    let text = "x".to_string();
    assert_eq!(text_value(&text, Some(3), Some((9, 0))), SqlValue::Date(3));
    assert_eq!(text_value(&text, Some(3), None), SqlValue::Date(3));
    assert_eq!(text_value(&text, None, Some((9, 5))), SqlValue::DateTime(9, 5));
    assert_eq!(text_value(&text, None, None), SqlValue::String("x".to_string()));
}

#[test]
fn decimal_numbers_are_read_strictly() {
    assert_eq!(parse_decimal("900", u64::MAX), Some(900));
    assert_eq!(parse_decimal("+7", u64::MAX), Some(7));
    assert_eq!(parse_decimal("007", u64::MAX), Some(7));
    assert_eq!(parse_decimal("0", 0), Some(0));
    assert_eq!(parse_decimal("", u64::MAX), None);
    assert_eq!(parse_decimal("+", u64::MAX), None);
    assert_eq!(parse_decimal("-1", u64::MAX), None);
    assert_eq!(parse_decimal(" 1", u64::MAX), None);
    assert_eq!(parse_decimal("1 ", u64::MAX), None);
    assert_eq!(parse_decimal("1_000", u64::MAX), None);
    assert_eq!(parse_decimal("12a", u64::MAX), None);
    assert_eq!(parse_decimal("++1", u64::MAX), None);
    assert_eq!(parse_decimal("٣", u64::MAX), None);
    assert_eq!(parse_decimal("4294967295", 4_294_967_295), Some(4_294_967_295));
    assert_eq!(parse_decimal("4294967296", 4_294_967_295), None);
    assert_eq!(parse_decimal("18446744073709551615", u64::MAX), Some(u64::MAX));
    assert_eq!(parse_decimal("18446744073709551616", u64::MAX), None);
    assert_eq!(parse_decimal("99999999999999999999999", u64::MAX), None);
    assert_eq!(setting(&None, 60, 100), Some(60));
    assert_eq!(setting(&Some("61".to_string()), 60, 100), Some(61));
    assert_eq!(setting(&Some("101".to_string()), 60, 100), None);
}

fn environment() -> Environment {
    Environment {
        server_addr: Some("127.0.0.1:8080".to_string()),
        database_url: Some("mysql://localhost/hr".to_string()),
        jwt_secret: Some("SECRET-REDACTED".to_string()),
        access_token_ttl: None,
        refresh_token_ttl: None,
        rate_login_per_min: None,
        rate_register_per_min: None,
        rate_refresh_per_min: None,
        rate_protected_per_min: None,
        api_prefix: None,
    }
}

#[test]
fn configuration_has_its_defaults() {
    assert_eq!(
        Config::from_vars(environment()),
        Ok(Config {
            database_url: "mysql://localhost/hr".to_string(),
            jwt_secret: "SECRET-REDACTED".to_string(),
            server_addr: "127.0.0.1:8080".to_string(),
            access_token_ttl: 900,
            refresh_token_ttl: 604_800,
            rate_login_per_min: 60,
            rate_register_per_min: 30,
            rate_refresh_per_min: 30,
            rate_protected_per_min: 1000,
            api_prefix: "/api".to_string(),
        })
    );
}

#[test]
fn configuration_reads_what_is_set() {
    let env = Environment {
        access_token_ttl: Some("60".to_string()),
        refresh_token_ttl: Some("3600".to_string()),
        rate_login_per_min: Some("1".to_string()),
        rate_register_per_min: Some("2".to_string()),
        rate_refresh_per_min: Some("3".to_string()),
        rate_protected_per_min: Some("4".to_string()),
        api_prefix: Some("/v2".to_string()),
        ..environment()
    };
    let config = Config::from_vars(env).unwrap();
    assert_eq!(config.access_token_ttl, 60);
    assert_eq!(config.refresh_token_ttl, 3600);
    assert_eq!(
        (
            config.rate_login_per_min,
            config.rate_register_per_min,
            config.rate_refresh_per_min,
            config.rate_protected_per_min
        ),
        (1, 2, 3, 4)
    );
    assert_eq!(config.api_prefix, "/v2");
}

#[test]
fn configuration_names_its_first_fault() {
    let faulty = |change: fn(&mut Environment)| {
        let mut env = environment();
        change(&mut env);
        Config::from_vars(env)
    };
    assert_eq!(faulty(|e| e.server_addr = None), Err(ConfigError::ServerAddrMissing));
    assert_eq!(faulty(|e| e.database_url = None), Err(ConfigError::DatabaseUrlMissing));
    assert_eq!(faulty(|e| e.jwt_secret = None), Err(ConfigError::JwtSecretMissing));
    assert_eq!(
        faulty(|e| e.access_token_ttl = Some("soon".to_string())),
        Err(ConfigError::AccessTokenTtlInvalid)
    );
    assert_eq!(
        faulty(|e| e.refresh_token_ttl = Some("".to_string())),
        Err(ConfigError::RefreshTokenTtlInvalid)
    );
    assert_eq!(
        faulty(|e| e.rate_login_per_min = Some("4294967296".to_string())),
        Err(ConfigError::RateLoginInvalid)
    );
    assert_eq!(
        faulty(|e| e.rate_register_per_min = Some("-3".to_string())),
        Err(ConfigError::RateRegisterInvalid)
    );
    assert_eq!(
        faulty(|e| e.rate_refresh_per_min = Some("3.5".to_string())),
        Err(ConfigError::RateRefreshInvalid)
    );
    assert_eq!(
        faulty(|e| e.rate_protected_per_min = Some(" 7".to_string())),
        Err(ConfigError::RateProtectedInvalid)
    );
    assert_eq!(
        faulty(|e| {
            e.database_url = None;
            e.rate_login_per_min = Some("x".to_string());
        }),
        Err(ConfigError::DatabaseUrlMissing)
    );
}

#[test]
fn limiter_period_follows_the_rate() {
    assert_eq!(limiter_period_ms(0), 1);
    assert_eq!(limiter_period_ms(1), 60_000);
    assert_eq!(limiter_period_ms(60), 1000);
    assert_eq!(limiter_period_ms(30), 2000);
    assert_eq!(limiter_period_ms(1000), 60);
    assert_eq!(limiter_period_ms(60_000), 1);
    assert_eq!(limiter_period_ms(60_001), 0);
    assert!(!limiter_rate_in_range(0));
    assert!(limiter_rate_in_range(1));
    assert!(limiter_rate_in_range(60_000));
    assert!(!limiter_rate_in_range(60_001));
    assert!(!limiter_rate_in_range(u32::MAX));
}

#[test]
fn password_verifies_against_its_own_hash() {
    let hashed = hash_password("correct horse").unwrap();
    assert!(hashed.starts_with("$argon2"));
    assert_ne!(hashed, "correct horse");
    assert_eq!(verify_password("correct horse", &hashed), Ok(()));
    assert_eq!(verify_password("wrong horse", &hashed), Err(PasswordError::Mismatch));
    assert_eq!(verify_password("correct horse", "not a hash"), Err(PasswordError::MalformedHash));
    assert_eq!(verify_password("", ""), Err(PasswordError::MalformedHash));
}

#[test]
fn every_hash_has_its_own_salt() {
    let first = hash_password("same").unwrap();
    let second = hash_password("same").unwrap();
    assert_ne!(first, second);
    assert_eq!(verify_password("same", &first), Ok(()));
    assert_eq!(verify_password("same", &second), Ok(()));
}

#[test]
fn verification_results_are_mapped() {
    assert_eq!(check(Some(true)), Ok(()));
    assert_eq!(check(Some(false)), Err(PasswordError::Mismatch));
    assert_eq!(check(None), Err(PasswordError::MalformedHash));
}

fn subject() -> Subject {
    Subject { user_id: 7, username: "pat".to_string(), role: 2, employee_id: Some(1000) }
}

#[test]
fn expiry_is_now_plus_lifetime() {
    assert_eq!(expiry(Some(1_700_000_000), 900), Some(1_700_000_900));
    assert_eq!(expiry(Some(0), 0), Some(0));
    assert_eq!(expiry(None, 900), None);
    assert_eq!(expiry(Some(1), usize::MAX), None);
    assert_eq!(expiry(Some(u64::MAX), 1), None);
}

#[test]
fn claims_carry_the_subject() {
    let issued = issue_claims(subject(), TokenType::Refresh, 1234, "jti-9".to_string());
    assert_eq!(
        issued,
        Claims {
            user_id: 7,
            sub: "pat".to_string(),
            role: 2,
            exp: 1234,
            jti: "jti-9".to_string(),
            token_type: TokenType::Refresh,
            employee_id: Some(1000),
        }
    );
}

#[test]
fn fresh_claims_expire_later_and_differ() {
    let first = fresh_claims(subject(), TokenType::Access, 900).unwrap();
    let second = fresh_claims(subject(), TokenType::Access, 900).unwrap();
    assert_eq!(first.user_id, 7);
    assert_eq!(first.sub, "pat");
    assert_eq!(first.role, 2);
    assert_eq!(first.employee_id, Some(1000));
    assert_eq!(first.token_type, TokenType::Access);
    // the clock of this machine stands after the year 2020
    assert!(first.exp > 1_577_836_800 + 900);
    assert_eq!(first.jti.len(), 36);
    assert_ne!(first.jti, second.jti);
    assert_eq!(fresh_claims(subject(), TokenType::Access, usize::MAX), None);
}

#[test]
fn refresh_tokens_are_told_from_access_tokens() {
    assert!(is_refresh(&claims(2, TokenType::Refresh)));
    assert!(!is_refresh(&claims(2, TokenType::Access)));
}

#[test]
fn registration_needs_a_username_and_a_password() {
    assert_eq!(check_credentials("  alice ", "pw"), Ok("alice"));
    assert_eq!(check_credentials("alice", "pw"), Ok("alice"));
    assert_eq!(check_credentials("   ", "pw"), Err(RegisterReply::EmptyCredentials));
    assert_eq!(check_credentials("", "pw"), Err(RegisterReply::EmptyCredentials));
    assert_eq!(check_credentials("alice", ""), Err(RegisterReply::EmptyCredentials));
    assert_eq!(check_credentials("alice", " "), Ok("alice"));
}

#[test]
fn registration_replies() {
    assert_eq!(reply_after_lookup(Availability::Available), None);
    assert_eq!(reply_after_lookup(Availability::Taken), Some(RegisterReply::UsernameTaken));
    assert_eq!(reply_after_lookup(Availability::Uncertain), Some(RegisterReply::UsernameTaken));
    assert_eq!(reply_after_claim(ClaimResult::Claimed), RegisterReply::Created);
    assert_eq!(reply_after_claim(ClaimResult::Conflict), RegisterReply::UsernameExists);
    assert_eq!(reply_after_claim(ClaimResult::InternalError), RegisterReply::Failed);
    assert_eq!(RegisterReply::Created.status(), 201);
    assert_eq!(RegisterReply::EmptyCredentials.status(), 400);
    assert_eq!(RegisterReply::UsernameTaken.status(), 409);
    assert_eq!(RegisterReply::UsernameExists.status(), 409);
    assert_eq!(RegisterReply::Failed.status(), 500);
}

#[test]
fn login_runs_through_its_stages() {
    let hashed = hash_password("pw").unwrap();

    let (mut login, action) = Login::begin("pat", "pw".to_string());
    assert_eq!(action, LoginAction::FetchUser);
    assert_eq!(
        login.step(LoginEvent::UserLooked(UserLookup::Found(hashed.clone()))),
        LoginAction::IssueTokens
    );
    assert_eq!(login.step(LoginEvent::TokensStored(true)), LoginAction::TouchLastLogin);
    assert_eq!(
        login.step(LoginEvent::LastLoginTouched(false)),
        LoginAction::Reply(LoginReply::LoggedIn)
    );
    // the login is over: whatever comes now is out of place
    assert_eq!(
        login.step(LoginEvent::TokensStored(true)),
        LoginAction::Reply(LoginReply::InternalError)
    );

    let (_, action) = Login::begin("   ", "pw".to_string());
    assert_eq!(action, LoginAction::Reply(LoginReply::CredentialsRequired));
    let (_, action) = Login::begin("pat", String::new());
    assert_eq!(action, LoginAction::Reply(LoginReply::CredentialsRequired));

    let (mut login, _) = Login::begin("pat", "wrong".to_string());
    assert_eq!(
        login.step(LoginEvent::UserLooked(UserLookup::Found(hashed.clone()))),
        LoginAction::Reply(LoginReply::InvalidCredentials)
    );
    let (mut login, _) = Login::begin("pat", "pw".to_string());
    assert_eq!(
        login.step(LoginEvent::UserLooked(UserLookup::NotFound)),
        LoginAction::Reply(LoginReply::InvalidCredentials)
    );
    let (mut login, _) = Login::begin("pat", "pw".to_string());
    assert_eq!(
        login.step(LoginEvent::UserLooked(UserLookup::Found("no hash".to_string()))),
        LoginAction::Reply(LoginReply::InvalidCredentials)
    );
    let (mut login, _) = Login::begin("pat", "pw".to_string());
    assert_eq!(
        login.step(LoginEvent::UserLooked(UserLookup::Failed)),
        LoginAction::Reply(LoginReply::InternalError)
    );
    let (mut login, _) = Login::begin("pat", "pw".to_string());
    login.step(LoginEvent::UserLooked(UserLookup::Found(hashed)));
    assert_eq!(
        login.step(LoginEvent::TokensStored(false)),
        LoginAction::Reply(LoginReply::InternalError)
    );
    let (mut login, _) = Login::begin("pat", "pw".to_string());
    assert_eq!(
        login.step(LoginEvent::LastLoginTouched(true)),
        LoginAction::Reply(LoginReply::InternalError)
    );

    assert_eq!(LoginReply::LoggedIn.status(), 200);
    assert_eq!(LoginReply::CredentialsRequired.status(), 400);
    assert_eq!(LoginReply::InvalidCredentials.status(), 401);
    assert_eq!(LoginReply::InternalError.status(), 500);
}

#[test]
fn refresh_runs_through_its_stages() {
    let found = |revoked: i8| RefreshEvent::Record(RecordLookup::Found { id: 5, user_id: 7, revoked });

    let (mut refresh, action) = Refresh::begin(Some(Some("Bearer tok")));
    assert_eq!(action, RefreshAction::VerifyToken("tok".to_string()));
    assert_eq!(
        refresh.step(RefreshEvent::Verified(Some(claims(2, TokenType::Refresh)))),
        RefreshAction::FindRecord("id-1".to_string())
    );
    assert_eq!(refresh.step(found(0)), RefreshAction::Revoke(5));
    assert_eq!(refresh.step(RefreshEvent::Revoked(true)), RefreshAction::IssueTokens(7));
    assert_eq!(
        refresh.step(RefreshEvent::TokensStored(true)),
        RefreshAction::Reply(RefreshReply::Refreshed)
    );

    assert_eq!(Refresh::begin(None).1, RefreshAction::Reply(RefreshReply::NoToken));
    assert_eq!(Refresh::begin(Some(None)).1, RefreshAction::Reply(RefreshReply::InvalidToken));
    assert_eq!(
        Refresh::begin(Some(Some("Basic tok"))).1,
        RefreshAction::Reply(RefreshReply::InvalidToken)
    );

    let begun = || Refresh::begin(Some(Some("Bearer tok"))).0;
    let mut refresh = begun();
    assert_eq!(
        refresh.step(RefreshEvent::Verified(None)),
        RefreshAction::Reply(RefreshReply::Unauthorized)
    );
    let mut refresh = begun();
    assert_eq!(
        refresh.step(RefreshEvent::Verified(Some(claims(2, TokenType::Access)))),
        RefreshAction::Reply(RefreshReply::Unauthorized)
    );
    for (event, reply) in [
        (found(1), RefreshReply::Unauthorized),
        (RefreshEvent::Record(RecordLookup::NotFound), RefreshReply::Unauthorized),
        (RefreshEvent::Record(RecordLookup::Failed), RefreshReply::InternalError),
        (RefreshEvent::Revoked(true), RefreshReply::InternalError),
    ] {
        let mut refresh = begun();
        refresh.step(RefreshEvent::Verified(Some(claims(2, TokenType::Refresh))));
        assert_eq!(refresh.step(event), RefreshAction::Reply(reply));
    }
    let mut refresh = begun();
    refresh.step(RefreshEvent::Verified(Some(claims(2, TokenType::Refresh))));
    refresh.step(found(0));
    assert_eq!(
        refresh.step(RefreshEvent::Revoked(false)),
        RefreshAction::Reply(RefreshReply::InternalError)
    );
    let mut refresh = begun();
    refresh.step(RefreshEvent::Verified(Some(claims(2, TokenType::Refresh))));
    refresh.step(found(0));
    refresh.step(RefreshEvent::Revoked(true));
    assert_eq!(
        refresh.step(RefreshEvent::TokensStored(false)),
        RefreshAction::Reply(RefreshReply::InternalError)
    );

    assert_eq!(RefreshReply::Refreshed.status(), 200);
    assert_eq!(RefreshReply::NoToken.status(), 401);
    assert_eq!(RefreshReply::InvalidToken.status(), 401);
    assert_eq!(RefreshReply::Unauthorized.status(), 401);
    assert_eq!(RefreshReply::InternalError.status(), 500);
}

#[test]
fn logout_revokes_refresh_tokens_only() {
    assert_eq!(begin_logout(Some(Some("Bearer tok"))), LogoutAction::VerifyToken("tok".to_string()));
    assert_eq!(begin_logout(None), LogoutAction::Done);
    assert_eq!(begin_logout(Some(None)), LogoutAction::Done);
    assert_eq!(begin_logout(Some(Some("tok"))), LogoutAction::Done);
    assert_eq!(
        logout_after_verification(Some(&claims(2, TokenType::Refresh))),
        LogoutAction::Revoke("id-1".to_string())
    );
    assert_eq!(logout_after_verification(Some(&claims(2, TokenType::Access))), LogoutAction::Done);
    assert_eq!(logout_after_verification(None), LogoutAction::Done);
}

#[test]
fn white_space_is_what_trimming_takes_away() {
    let white = |c: char| {
        matches!(
            c,
            '\u{9}'..='\u{d}'
                | ' '
                | '\u{85}'
                | '\u{a0}'
                | '\u{1680}'
                | '\u{2000}'..='\u{200a}'
                | '\u{2028}'
                | '\u{2029}'
                | '\u{202f}'
                | '\u{205f}'
                | '\u{3000}'
        )
    };
    let mut count = 0;
    for code in 0..=0x10FFFFu32 {
        if let Some(c) = char::from_u32(code) {
            let blank = check_credentials(&c.to_string(), "pw").is_err();
            assert_eq!(blank, white(c), "U+{code:04X}");
            if blank {
                count += 1;
            }
        }
    }
    assert_eq!(count, 25);
    assert_eq!(check_credentials("\u{3000}\talice\u{a0}\n", "pw"), Ok("alice"));
    assert_eq!(check_credentials(" a b ", "pw"), Ok("a b"));
    assert_eq!(check_credentials("\u{200b}", "pw"), Ok("\u{200b}"));
    assert_eq!(
        check_credentials("\u{2003}\u{205f} \r", "pw"),
        Err(RegisterReply::EmptyCredentials)
    );
}

#[test]
fn hash_follows_from_the_password_and_the_salt_bytes() {
    let first = hash_under("pw", Some([7u8; 16])).unwrap();
    let second = hash_under("pw", Some([7u8; 16])).unwrap();
    let other_salt = hash_under("pw", Some([8u8; 16])).unwrap();
    let other_password = hash_under("pw2", Some([7u8; 16])).unwrap();
    assert_eq!(first, second);
    assert_ne!(first, other_salt);
    assert_ne!(first, other_password);
    // sixteen bytes of 7 in the alphabet of the format
    assert!(first.contains("$BwcHBwcHBwcHBwcHBwcHBw$"), "{first}");
    assert_eq!(verify_password("pw", &first), Ok(()));
    assert_eq!(verify_password("pw", &other_salt), Ok(()));
    assert_eq!(verify_password("pw2", &first), Err(PasswordError::Mismatch));
    assert_eq!(hash_under("pw", None), None);
}

#[test]
fn claims_follow_from_the_clock_and_the_random_bytes() {
    let issued =
        claims_from(subject(), TokenType::Access, 900, Some(1_700_000_000), Some([0u8; 16]));
    assert_eq!(
        issued,
        Some(Claims {
            user_id: 7,
            sub: "pat".to_string(),
            role: 2,
            exp: 1_700_000_900,
            jti: "00000000-0000-4000-8000-000000000000".to_string(),
            token_type: TokenType::Access,
            employee_id: Some(1000),
        })
    );
    let issued = claims_from(subject(), TokenType::Refresh, 1, Some(5), Some([0xffu8; 16]));
    assert_eq!(issued.unwrap().jti, "ffffffff-ffff-4fff-bfff-ffffffffffff");
    assert_eq!(claims_from(subject(), TokenType::Access, 900, None, Some([0u8; 16])), None);
    assert_eq!(claims_from(subject(), TokenType::Access, 900, Some(1), None), None);
    assert_eq!(
        claims_from(subject(), TokenType::Access, usize::MAX, Some(1), Some([0u8; 16])),
        None
    );
}
