//! The URLs of the Legacy Games API.
use vstd::prelude::*;
use vstd::string::StringExecFns;

verus! {

/// Where the API lives.
pub const BASE_URL: &'static str = "https://api.legacygames.com";

/// The character of a decimal digit.
pub open spec fn digit_char(d: nat) -> char {
    if d == 0 {
        '0'
    } else if d == 1 {
        '1'
    } else if d == 2 {
        '2'
    } else if d == 3 {
        '3'
    } else if d == 4 {
        '4'
    } else if d == 5 {
        '5'
    } else if d == 6 {
        '6'
    } else if d == 7 {
        '7'
    } else if d == 8 {
        '8'
    } else {
        '9'
    }
}

/// `n` written in decimal, as `format!("{n}")` writes it.
pub open spec fn decimal(n: nat) -> Seq<char>
    decreases n,
{
    if n < 10 {
        seq![digit_char(n)]
    } else {
        decimal(n / 10).push(digit_char(n % 10))
    }
}

fn digit_str(d: u64) -> (r: &'static str)
    requires
        d < 10,
    ensures
        r@ == seq![digit_char(d as nat)],
{
    proof {
        reveal_strlit("0");
        reveal_strlit("1");
        reveal_strlit("2");
        reveal_strlit("3");
        reveal_strlit("4");
        reveal_strlit("5");
        reveal_strlit("6");
        reveal_strlit("7");
        reveal_strlit("8");
        reveal_strlit("9");
    }
    if d == 0 {
        "0"
    } else if d == 1 {
        "1"
    } else if d == 2 {
        "2"
    } else if d == 3 {
        "3"
    } else if d == 4 {
        "4"
    } else if d == 5 {
        "5"
    } else if d == 6 {
        "6"
    } else if d == 7 {
        "7"
    } else if d == 8 {
        "8"
    } else {
        "9"
    }
}

/// `n` in decimal digits.
pub fn decimal_string(n: u64) -> (r: String)
    ensures
        r@ == decimal(n as nat),
    decreases n,
{
    if n < 10 {
        String::from_str(digit_str(n))
    } else {
        let mut s = decimal_string(n / 10);
        s.append(digit_str(n % 10));
        s
    }
}

/// `a` followed by `b`.
pub fn concat(a: &str, b: &str) -> (r: String)
    ensures
        r@ == a@ + b@,
{
    let mut r = String::from_str(a);
    r.append(b);
    r
}

pub fn login() -> (r: String)
    ensures
        r@ == BASE_URL@ + "/users/login"@,
{
    concat(BASE_URL, "/users/login")
}

pub fn is_exists_by_email(email: &str) -> (r: String)
    ensures
        r@ == BASE_URL@ + "/users/isexistsbyemail?email="@ + email@,
{
    let mut r = concat(BASE_URL, "/users/isexistsbyemail?email=");
    r.append(email);
    r
}

pub fn entitlements(user_id: u64) -> (r: String)
    ensures
        r@ == BASE_URL@ + "/users/downloads?userId="@ + decimal(user_id as nat),
{
    let mut r = concat(BASE_URL, "/users/downloads?userId=");
    let id = decimal_string(user_id);
    r.append(id.as_str());
    r
}

pub fn get_giveaway_catalog_by_email(email: &str) -> (r: String)
    ensures
        r@ == BASE_URL@ + "/users/getgiveawaycatalogbyemail?email="@ + email@,
{
    let mut r = concat(BASE_URL, "/users/getgiveawaycatalogbyemail?email=");
    r.append(email);
    r
}

pub fn catalog() -> (r: String)
    ensures
        r@ == BASE_URL@ + "/products/catalog"@,
{
    concat(BASE_URL, "/products/catalog")
}

} // verus!
