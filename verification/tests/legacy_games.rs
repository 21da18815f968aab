use thrustr::legacy_games::api::client::merge_products;
use thrustr::legacy_games::api::endpoints::{
    catalog, decimal_string, entitlements, get_giveaway_catalog_by_email, is_exists_by_email,
    login, BASE_URL,
};
use thrustr::legacy_games::api::error::Error;
use thrustr::legacy_games::api::models::{
    ApiResponse, ErrorData, GiveawayItem, GiveawayUser, GiveawayUserResponse,
    IsExistsByEmailResponse, IsExistsByEmailSuccess, LoginResponse, LoginSuccess, Product,
    ProductGame, Status, StructuredError, WpUser, WpUserData,
};
use thrustr::legacy_games::error::PluginError;
use thrustr::legacy_games::plugin::{AuthRequest, LegacyGames, LoginFields, LoginRequest};

#[test]
fn endpoints_live_under_the_base_url() {
    assert_eq!(BASE_URL, "https://api.legacygames.com");
    assert_eq!(login(), "https://api.legacygames.com/users/login");
    assert_eq!(
        is_exists_by_email("a@b.c"),
        "https://api.legacygames.com/users/isexistsbyemail?email=a@b.c"
    );
    assert_eq!(
        entitlements(4012),
        "https://api.legacygames.com/users/downloads?userId=4012"
    );
    assert_eq!(
        get_giveaway_catalog_by_email("x@y.z"),
        "https://api.legacygames.com/users/getgiveawaycatalogbyemail?email=x@y.z"
    );
    assert_eq!(catalog(), "https://api.legacygames.com/products/catalog");
}

#[test]
fn decimal_strings_match_format() {
    for n in [0u64, 7, 10, 99, 100, 4012, u64::MAX] {
        assert_eq!(decimal_string(n), format!("{n}"));
    }
}

fn wp_none() -> WpUser {
    WpUser::Absent(false)
}

#[test]
fn login_reply_into_result() {
    let ok: LoginResponse = ApiResponse::Success {
        data: LoginSuccess { user_id: 7 },
    };
    assert!(ok.into_result().is_ok());
    let err: LoginResponse = ApiResponse::Error {
        data: ErrorData::Message("nope".to_string()),
    };
    assert!(matches!(err.into_result(), Err(Error::InvalidCredentials)));
}

#[test]
fn lookup_reply_into_result() {
    let found: IsExistsByEmailResponse = ApiResponse::Success {
        data: IsExistsByEmailSuccess {
            giveaway_user: GiveawayUser::Response(GiveawayUserResponse {
                status: Status::Success,
                data: vec![GiveawayItem {
                    product_id: "1".to_string(),
                    game_id: "2".to_string(),
                    installer_uuid: "u".to_string(),
                    order_id: "o".to_string(),
                }],
            }),
            wp_user: WpUser::User(WpUserData {
                id: 3,
                user_login: "me".to_string(),
                nickname: "me".to_string(),
            }),
        },
    };
    assert!(found.into_result().is_ok());

    let failed: IsExistsByEmailResponse = ApiResponse::Success {
        data: IsExistsByEmailSuccess {
            giveaway_user: GiveawayUser::Response(GiveawayUserResponse {
                status: Status::Error,
                data: vec![],
            }),
            wp_user: wp_none(),
        },
    };
    assert!(matches!(failed.into_result(), Err(Error::UserNotFound)));

    let none: IsExistsByEmailResponse = ApiResponse::Success {
        data: IsExistsByEmailSuccess {
            giveaway_user: GiveawayUser::Absent(false),
            wp_user: wp_none(),
        },
    };
    assert!(matches!(none.into_result(), Err(Error::UserNotFound)));

    let error: IsExistsByEmailResponse = ApiResponse::Error {
        data: ErrorData::Structured(StructuredError {
            code: "E42".to_string(),
            message: "bad email".to_string(),
        }),
    };
    match error.into_result() {
        Err(Error::Other(m)) => assert_eq!(m, "[E42] bad email"),
        other => panic!("unexpected {other:?}"),
    }
}

#[test]
fn error_messages() {
    assert_eq!(ErrorData::Message("m".to_string()).to_string(), "m");
    assert_eq!(Error::UserNotFound.to_string(), "user not found");
    assert_eq!(Error::InvalidCredentials.to_string(), "invalid credentials");
    assert_eq!(
        Error::Request("timeout".to_string()).to_string(),
        "request failed: timeout"
    );
    assert_eq!(Error::Other("x".to_string()).to_string(), "error: x");
}

#[test]
fn api_errors_become_plugin_errors() {
    assert!(matches!(
        PluginError::from_api(Error::InvalidCredentials),
        PluginError::Auth(m) if m == "Invalid credentials."
    ));
    assert!(matches!(
        PluginError::from_api(Error::UserNotFound),
        PluginError::Auth(m) if m == "User not found."
    ));
    assert!(matches!(
        PluginError::from_api(Error::Request("t".to_string())),
        PluginError::Other(m) if m == "t"
    ));
    assert!(matches!(
        PluginError::from_api(Error::Other("o".to_string())),
        PluginError::Other(m) if m == "o"
    ));
}

fn game(id: &str, name: &str, description: &str, uuid: &str) -> ProductGame {
    ProductGame {
        game_id: id.to_string(),
        game_name: name.to_string(),
        game_description: description.to_string(),
        game_coverart: format!("{id}.png"),
        installer_uuid: uuid.to_string(),
    }
}

fn names(products: &[Product]) -> Vec<(u64, Vec<(String, String)>)> {
    products
        .iter()
        .map(|p| {
            (
                p.id,
                p.games
                    .iter()
                    .map(|g| (g.game_name.clone(), g.game_description.clone()))
                    .collect(),
            )
        })
        .collect()
}

#[test]
fn giveaway_games_take_missing_details_from_the_catalog() {
    let giveaway = vec![Product {
        id: 1,
        games: vec![
            game("g1", "", "", "u1"),
            game("g2", "Kept", "", "u2"),
            game("g3", "", "", "u9"),
        ],
    }];
    let catalog = vec![
        Product {
            id: 1,
            games: vec![game("g1", "Old", "Old text", "u1")],
        },
        Product {
            id: 1,
            games: vec![
                game("g1", "Alpha", "About alpha", "u1"),
                game("g2", "Beta", "About beta", "u2"),
            ],
        },
    ];
    let merged = merge_products(giveaway, catalog, None);
    assert_eq!(
        names(&merged),
        vec![(
            1,
            vec![
                ("Alpha".to_string(), "About alpha".to_string()),
                ("Kept".to_string(), "About beta".to_string()),
                (String::new(), String::new()),
            ]
        )]
    );
}

#[test]
fn bought_products_come_from_the_catalog_once() {
    let catalog = vec![
        Product {
            id: 5,
            games: vec![game("a", "A", "a", "ua")],
        },
        Product {
            id: 6,
            games: vec![game("b", "B", "b", "ub")],
        },
    ];
    let merged = merge_products(vec![], catalog, Some(vec![6, 9, 5, 6]));
    let ids: Vec<u64> = merged.iter().map(|p| p.id).collect();
    assert_eq!(ids, vec![6, 5]);
}

#[test]
fn credentials_token_is_base64_of_address_and_password() {
    assert_eq!(
        LegacyGames::credentials_token("user@example.com", "hunter2"),
        "dXNlckBleGFtcGxlLmNvbTpodW50ZXIy"
    );
    assert_eq!(LegacyGames::credentials_token("é", "ü"), "w6k6w7w=");
}

#[test]
fn init_uses_the_stored_token_or_the_address() {
    assert!(matches!(
        LegacyGames::init_request(None, Some("t".to_string())),
        Err(PluginError::Auth(m)) if m == "not logged in"
    ));
    assert!(matches!(
        LegacyGames::init_request(Some("a@b.c".to_string()), Some("t".to_string())),
        Ok(AuthRequest::Login { token }) if token == "t"
    ));
    assert!(matches!(
        LegacyGames::init_request(Some("a@b.c".to_string()), None),
        Ok(AuthRequest::Giveaway { email }) if email == "a@b.c"
    ));
}

#[test]
fn sign_in_form_decides_the_request() {
    assert!(matches!(
        LegacyGames::login_request(None),
        Err(PluginError::Auth(m)) if m == "fields should not be None"
    ));
    assert!(matches!(
        LegacyGames::login_request(Some(LoginFields { email: None, password: Some("p".to_string()) })),
        Err(PluginError::Auth(m)) if m == "email is mandatory"
    ));
    match LegacyGames::login_request(Some(LoginFields {
        email: Some("user@example.com".to_string()),
        password: Some("hunter2".to_string()),
    })) {
        Ok(LoginRequest::Password { email, token }) => {
            assert_eq!(email, "user@example.com");
            assert_eq!(token, "dXNlckBleGFtcGxlLmNvbTpodW50ZXIy");
        }
        _ => panic!("expected a password sign-in"),
    }
    assert!(matches!(
        LegacyGames::login_request(Some(LoginFields { email: Some("a@b.c".to_string()), password: None })),
        Ok(LoginRequest::Giveaway { email }) if email == "a@b.c"
    ));
}

#[test]
fn products_become_launcher_games() {
    let product = Product {
        id: 77,
        games: vec![game("g1", "Alpha", "About", "u1")],
    };
    let games = LegacyGames::games_of(&product);
    assert_eq!(games.len(), 1);
    let g = &games[0];
    assert_eq!(g.name, "Alpha");
    assert_eq!(g.lookup_id, "u1");
    assert_eq!(
        g.external_ids,
        vec![
            ("game_id".to_string(), "g1".to_string()),
            ("product_id".to_string(), "77".to_string())
        ]
    );
    assert_eq!(g.cover_url.as_deref(), Some("g1.png"));
    assert_eq!(g.summary.as_deref(), Some("About"));
    assert_eq!(g.description, None);
}
