//! The decisions of the Legacy Games plugin: which request signs in, the
//! token a password makes, and the games a product holds.
use crate::legacy_games::api::endpoints::{concat, decimal, decimal_string};
use crate::legacy_games::api::models::{
    games_view, products_view, Product, ProductGameView, ProductView,
};
use crate::legacy_games::error::{PluginError, PluginErrorView};
use crate::unicode::{byte_len, lemma_str_len};
use base64::engine::general_purpose::STANDARD;
use base64::Engine;
use vstd::prelude::*;
use vstd::string::StringExecFns;
use vstd::string::StringSliceAdditionalSpecFns;
use vstd::utf8::encode_utf8;

verus! {

/// The digit of the standard base64 alphabet for a six-bit value `v`:
/// `A`-`Z`, `a`-`z`, `0`-`9`, then `+` and `/`.
pub open spec fn base64_digit(v: int) -> char {
    if v < 26 {
        (65 + v) as char
    } else if v < 52 {
        (97 + v - 26) as char
    } else if v < 62 {
        (48 + v - 52) as char
    } else if v == 62 {
        '+'
    } else {
        '/'
    }
}

/// The padded base64 text of `data` in the standard alphabet: each group of
/// three bytes becomes four digits of six bits each, most significant first;
/// a last group of one or two bytes becomes two or three digits, the missing
/// bits zero, padded with `=` to four.
pub open spec fn base64_standard(data: Seq<u8>) -> Seq<char>
    decreases data.len(),
{
    if data.len() == 0 {
        Seq::empty()
    } else if data.len() == 1 {
        let b0 = data[0] as int;
        seq![base64_digit(b0 / 4), base64_digit((b0 % 4) * 16), '=', '=']
    } else if data.len() == 2 {
        let b0 = data[0] as int;
        let b1 = data[1] as int;
        seq![base64_digit(b0 / 4), base64_digit((b0 % 4) * 16 + b1 / 16), base64_digit((b1 % 16) * 4), '=']
    } else {
        let b0 = data[0] as int;
        let b1 = data[1] as int;
        let b2 = data[2] as int;
        seq![
            base64_digit(b0 / 4),
            base64_digit((b0 % 4) * 16 + b1 / 16),
            base64_digit((b1 % 16) * 4 + b2 / 64),
            base64_digit(b2 % 64),
        ] + base64_standard(data.subrange(3, data.len() as int))
    }
}

/// `STANDARD.encode(data)` of the `base64` crate.
///
/// Trusted: the result is `base64_standard` of these bytes. The encoder
/// panics when the encoded length overflows `usize`; `requires` leaves that
/// out.
#[verifier::external_body]
fn base64_encode(data: &[u8]) -> (r: String)
    requires
        4 * ((data@.len() + 2) / 3) <= usize::MAX,
    ensures
        r@ == base64_standard(data@),
{
    STANDARD.encode(data)
}

/// The storefront plugin.
pub struct LegacyGames;

/// What signing in sends, as the launcher stored it.
pub enum AuthRequest {
    /// Sign in with the stored token.
    Login { token: String },
    /// Look the address up among giveaway accounts.
    Giveaway { email: String },
}

/// The fields of the sign-in form.
pub struct LoginFields {
    pub email: Option<String>,
    pub password: Option<String>,
}

/// What the sign-in form sends.
pub enum LoginRequest {
    /// Sign in with the token the address and password make; the token and
    /// the user's id are kept afterwards.
    Password { email: String, token: String },
    /// Without a password, look the address up among giveaway accounts.
    Giveaway { email: String },
}

/// A game as the launcher lists it.
pub struct Game {
    pub name: String,
    pub lookup_id: String,
    /// Ids of the game in the store, by name, in the order of their names.
    pub external_ids: Vec<(String, String)>,
    pub cover_url: Option<String>,
    pub summary: Option<String>,
    pub description: Option<String>,
}

/// The mathematical value of a [`Game`].
pub struct GameView {
    pub name: Seq<char>,
    pub lookup_id: Seq<char>,
    pub external_ids: Seq<(Seq<char>, Seq<char>)>,
    pub cover_url: Option<Seq<char>>,
    pub summary: Option<Seq<char>>,
    pub description: Option<Seq<char>>,
}

pub open spec fn option_text(o: Option<String>) -> Option<Seq<char>> {
    match o {
        Some(s) => Some(s@),
        None => None,
    }
}

impl View for Game {
    type V = GameView;

    open spec fn view(&self) -> GameView {
        GameView {
            name: self.name@,
            lookup_id: self.lookup_id@,
            external_ids: self.external_ids@.map_values(|p: (String, String)| (p.0@, p.1@)),
            cover_url: option_text(self.cover_url),
            summary: option_text(self.summary),
            description: option_text(self.description),
        }
    }
}

/// The launcher's game for a game of product `product_id`.
pub open spec fn game_of(g: ProductGameView, product_id: u64) -> GameView {
    GameView {
        name: g.game_name,
        lookup_id: g.installer_uuid,
        external_ids: seq![("game_id"@, g.game_id), ("product_id"@, decimal(product_id as nat))],
        cover_url: Some(g.game_coverart),
        summary: Some(g.game_description),
        description: None,
    }
}

/// The launcher's games of a list of products, product by product.
pub open spec fn games_of_products_spec(products: Seq<ProductView>) -> Seq<GameView>
    decreases products.len(),
{
    if products.len() == 0 {
        Seq::empty()
    } else {
        games_of_products_spec(products.drop_last()) + products.last().games.map_values(
            |g: ProductGameView| game_of(g, products.last().id),
        )
    }
}

/// The credentials `email:password` as the API takes them.
pub open spec fn token_spec(email: Seq<char>, password: Seq<char>) -> Seq<char> {
    base64_standard(encode_utf8(email + ":"@ + password))
}

impl LegacyGames {
    /// The request that checks the stored sign-in: none without a stored
    /// address; the stored token when there is one, else the address.
    pub fn init_request(email: Option<String>, token: Option<String>) -> (r: Result<
        AuthRequest,
        PluginError,
    >)
        ensures
            match email {
                None => r matches Err(e) && e@ == PluginErrorView::Auth("not logged in"@),
                Some(a) => match token {
                    Some(t) => r matches Ok(AuthRequest::Login { token }) && token@ == t@,
                    None => r matches Ok(AuthRequest::Giveaway { email }) && email@ == a@,
                },
            },
    {
        let email = match email {
            Some(e) => e,
            None => {
                return Err(PluginError::Auth(String::from_str("not logged in")));
            },
        };
        match token {
            Some(token) => Ok(AuthRequest::Login { token }),
            None => Ok(AuthRequest::Giveaway { email }),
        }
    }

    /// The credentials `email:password` in base64, as the API takes them.
    pub fn credentials_token(email: &str, password: &str) -> (r: String)
        requires
            4 * ((byte_len(email@ + ":"@ + password@) + 2) / 3) <= usize::MAX,
        ensures
            r@ == token_spec(email@, password@),
    {
        let mut s = concat(email, ":");
        s.append(password);
        let sr = s.as_str();
        proof {
            reveal_strlit(":");
            lemma_str_len(sr);
        }
        base64_encode(sr.as_bytes())
    }

    /// What the sign-in form sends: an error without the form or without an
    /// address; with a password, the token it makes; else the address.
    pub fn login_request(fields: Option<LoginFields>) -> (r: Result<LoginRequest, PluginError>)
        requires
            fields matches Some(f) ==> (f.email matches Some(e) ==> (f.password matches Some(p)
                ==> 4 * ((byte_len(e@ + ":"@ + p@) + 2) / 3) <= usize::MAX)),
        ensures
            match fields {
                None => r matches Err(e) && e@ == PluginErrorView::Auth(
                    "fields should not be None"@,
                ),
                Some(f) => match f.email {
                    None => r matches Err(e) && e@ == PluginErrorView::Auth("email is mandatory"@),
                    Some(a) => match f.password {
                        Some(p) => r matches Ok(LoginRequest::Password { email, token }) && email@
                            == a@ && token@ == token_spec(a@, p@),
                        None => r matches Ok(LoginRequest::Giveaway { email }) && email@ == a@,
                    },
                },
            },
    {
        let fields = match fields {
            Some(f) => f,
            None => {
                return Err(PluginError::Auth(String::from_str("fields should not be None")));
            },
        };
        let email = match fields.email {
            Some(e) => e,
            None => {
                return Err(PluginError::Auth(String::from_str("email is mandatory")));
            },
        };
        match fields.password {
            Some(password) => {
                let token = Self::credentials_token(email.as_str(), password.as_str());
                Ok(LoginRequest::Password { email, token })
            },
            None => Ok(LoginRequest::Giveaway { email }),
        }
    }

    /// The launcher's games of a product, one for each of its games.
    pub fn games_of(product: &Product) -> (r: Vec<Game>)
        ensures
            r@.map_values(|g: Game| g@) == games_view(product.games@).map_values(
                |g: ProductGameView| game_of(g, product.id),
            ),
    {
        let mut games: Vec<Game> = Vec::new();
        let mut i: usize = 0;
        let id = decimal_string(product.id);
        while i < product.games.len()
            invariant
                i <= product.games.len(),
                id@ == decimal(product.id as nat),
                games.len() == i,
                forall|k: int|
                    0 <= k < i ==> games@[k]@ == game_of(product.games@[k]@, product.id),
            decreases product.games.len() - i,
        {
            let g = &product.games[i];
            let mut ids: Vec<(String, String)> = Vec::new();
            ids.push((String::from_str("game_id"), g.game_id.clone()));
            ids.push((String::from_str("product_id"), id.clone()));
            let game = Game {
                name: g.game_name.clone(),
                lookup_id: g.installer_uuid.clone(),
                external_ids: ids,
                cover_url: Some(g.game_coverart.clone()),
                summary: Some(g.game_description.clone()),
                description: None,
            };
            assert(game@.external_ids =~= game_of(product.games@[i as int]@, product.id).external_ids);
            games.push(game);
            i += 1;
        }
        assert(games@.map_values(|g: Game| g@) =~= games_view(product.games@).map_values(
            |g: ProductGameView| game_of(g, product.id),
        ));
        games
    }

    /// The launcher's games of all the products of an account.
    pub fn get_games(products: &Vec<Product>) -> (r: Vec<Game>)
        ensures
            r@.map_values(|g: Game| g@) == games_of_products_spec(products_view(products@)),
    {
        let mut all: Vec<Game> = Vec::new();
        let mut i: usize = 0;
        while i < products.len()
            invariant
                i <= products.len(),
                all@.map_values(|g: Game| g@) == games_of_products_spec(
                    products_view(products@).take(i as int),
                ),
            decreases products.len() - i,
        {
            let mut games = Self::games_of(&products[i]);
            let ghost before = all@;
            let ghost more = games@;
            all.append(&mut games);
            assert(products_view(products@).take(i + 1).drop_last() =~= products_view(
                products@,
            ).take(i as int));
            assert(products_view(products@).take(i + 1).last() == products@[i as int]@);
            assert(all@ =~= before + more);
            assert(all@.map_values(|g: Game| g@) =~= before.map_values(|g: Game| g@)
                + more.map_values(|g: Game| g@));
            i += 1;
        }
        assert(products_view(products@).take(i as int) =~= products_view(products@));
        all
    }
}

} // verus!
