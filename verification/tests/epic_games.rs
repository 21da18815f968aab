use thrustr::epic_games::endpoints::auth_url;
use thrustr::epic_games::plugin::{EpicGames, Error};

#[test]
fn auth_url_form_encodes_the_redirect() {
    assert_eq!(
        auth_url("abc 1"),
        "https://www.epicgames.com/id/login?redirectUrl=https%3A%2F%2Fwww.epicgames.com%2Fid%2Fapi%2Fredirect%3FclientId%3Dabc+1%26responseType%3Dcode"
    );
}

#[test]
fn flows_open_the_epic_pages() {
    let login = EpicGames::get_login_flow("abc 1").unwrap().unwrap();
    assert_eq!(login.url, auth_url("abc 1"));
    assert_eq!(login.target, "https://www.epicgames.com/id/api/redirect?");
    let logout = EpicGames::get_logout_flow().unwrap().unwrap();
    assert_eq!(
        logout.url,
        "https://www.epicgames.com/id/logout?productName=epic-games&redirectUrl=https://www.epicgames.com/id/login"
    );
    assert_eq!(logout.target, "https://www.epicgames.com/id/login");
}

#[test]
fn empty_user_name_is_refused() {
    assert!(matches!(
        EpicGames::check_username(""),
        Err(Error::Config(m)) if m == "Username cannot be empty"
    ));
    assert!(EpicGames::check_username("me").is_ok());
}
