//! The replies of the Legacy Games API, and what the plugin reads of them.
use crate::legacy_games::api::endpoints::concat;
use crate::legacy_games::api::error::Error;
use vstd::prelude::*;
use vstd::string::StringExecFns;

verus! {

#[derive(Debug, PartialEq, Eq, Structural)]
/// The status a reply reports; the API writes it `ok` or `error`.
pub enum Status {
    Success,
    Error,
}

#[derive(Debug)]
pub struct StructuredError {
    pub code: String,
    pub message: String,
}

/// The error a reply carries: a message, or a code with a message.
#[derive(Debug)]
pub enum ErrorData {
    Message(String),
    Structured(StructuredError),
}

impl ErrorData {
    /// The error as shown: the message, or `[code] message`.
    pub open spec fn message_spec(&self) -> Seq<char> {
        match self {
            ErrorData::Message(m) => m@,
            ErrorData::Structured(e) => "["@ + e.code@ + "] "@ + e.message@,
        }
    }

    /// The error as shown: the message, or `[code] message`.
    pub fn to_string(&self) -> (r: String)
        ensures
            r@ == self.message_spec(),
    {
        match self {
            ErrorData::Message(m) => m.clone(),
            ErrorData::Structured(e) => {
                let mut r = concat("[", e.code.as_str());
                r.append("] ");
                r.append(e.message.as_str());
                r
            },
        }
    }
}

/// A reply: the data asked for, or an error.
#[derive(Debug)]
pub enum ApiResponse<T> {
    Success { data: T },
    Error { data: ErrorData },
}

#[derive(Debug)]
pub struct IsExistsByEmailSuccess {
    pub giveaway_user: GiveawayUser,
    pub wp_user: WpUser,
}

/// The giveaway account of an address: `false` when there is none.
#[derive(Debug)]
pub enum GiveawayUser {
    Absent(bool),
    Response(GiveawayUserResponse),
}

#[derive(Debug)]
pub struct GiveawayUserResponse {
    pub status: Status,
    pub data: Vec<GiveawayItem>,
}

#[derive(Debug)]
pub struct GiveawayItem {
    pub product_id: String,
    pub game_id: String,
    pub installer_uuid: String,
    pub order_id: String,
}

/// The store account of an address: `false` when there is none.
#[derive(Debug)]
pub enum WpUser {
    Absent(bool),
    User(WpUserData),
}

#[derive(Debug)]
pub struct WpUserData {
    pub id: u64,
    pub user_login: String,
    pub nickname: String,
}

#[derive(Debug)]
pub struct LoginSuccess {
    pub user_id: u64,
}

pub type IsExistsByEmailResponse = ApiResponse<IsExistsByEmailSuccess>;

pub type LoginResponse = ApiResponse<LoginSuccess>;

impl ApiResponse<LoginSuccess> {
    /// A login succeeds with data; any error reply means the credentials
    /// were refused.
    pub fn into_result(self) -> (r: Result<(), Error>)
        ensures
            match self {
                ApiResponse::Success { .. } => r is Ok,
                ApiResponse::Error { .. } => r matches Err(Error::InvalidCredentials),
            },
    {
        match self {
            ApiResponse::Success { .. } => Ok(()),
            ApiResponse::Error { .. } => Err(Error::InvalidCredentials),
        }
    }
}

/// The address has a giveaway account in good standing.
pub open spec fn giveaway_account_ok(data: IsExistsByEmailSuccess) -> bool {
    data.giveaway_user matches GiveawayUser::Response(r) && r.status == Status::Success
}

impl ApiResponse<IsExistsByEmailSuccess> {
    /// The address is known when it has a giveaway account in good
    /// standing; an error reply passes its message on.
    pub fn into_result(self) -> (r: Result<(), Error>)
        ensures
            match self {
                ApiResponse::Success { data } => if giveaway_account_ok(data) {
                    r is Ok
                } else {
                    r matches Err(Error::UserNotFound)
                },
                ApiResponse::Error { data } => r matches Err(Error::Other(m)) && m@
                    == data.message_spec(),
            },
    {
        match self {
            ApiResponse::Success { data } => match data.giveaway_user {
                GiveawayUser::Response(r) => {
                    if r.status == Status::Success {
                        Ok(())
                    } else {
                        Err(Error::UserNotFound)
                    }
                },
                _ => Err(Error::UserNotFound),
            },
            ApiResponse::Error { data } => Err(Error::Other(data.to_string())),
        }
    }
}

/// A game of a product.
#[derive(Debug)]
pub struct ProductGame {
    pub game_id: String,
    pub game_name: String,
    pub game_description: String,
    pub game_coverart: String,
    pub installer_uuid: String,
}

/// A product: one or more games sold together.
#[derive(Debug)]
pub struct Product {
    pub id: u64,
    pub games: Vec<ProductGame>,
}

/// The mathematical value of a [`ProductGame`].
pub struct ProductGameView {
    pub game_id: Seq<char>,
    pub game_name: Seq<char>,
    pub game_description: Seq<char>,
    pub game_coverart: Seq<char>,
    pub installer_uuid: Seq<char>,
}

/// The mathematical value of a [`Product`].
pub struct ProductView {
    pub id: u64,
    pub games: Seq<ProductGameView>,
}

impl View for ProductGame {
    type V = ProductGameView;

    open spec fn view(&self) -> ProductGameView {
        ProductGameView {
            game_id: self.game_id@,
            game_name: self.game_name@,
            game_description: self.game_description@,
            game_coverart: self.game_coverart@,
            installer_uuid: self.installer_uuid@,
        }
    }
}

pub open spec fn games_view(games: Seq<ProductGame>) -> Seq<ProductGameView> {
    games.map_values(|g: ProductGame| g@)
}

impl View for Product {
    type V = ProductView;

    open spec fn view(&self) -> ProductView {
        ProductView { id: self.id, games: games_view(self.games@) }
    }
}

pub open spec fn products_view(products: Seq<Product>) -> Seq<ProductView> {
    products.map_values(|p: Product| p@)
}

impl Clone for ProductGame {
    fn clone(&self) -> (r: Self)
        ensures
            r@ == self@,
    {
        ProductGame {
            game_id: self.game_id.clone(),
            game_name: self.game_name.clone(),
            game_description: self.game_description.clone(),
            game_coverart: self.game_coverart.clone(),
            installer_uuid: self.installer_uuid.clone(),
        }
    }
}

impl Clone for Product {
    fn clone(&self) -> (r: Self)
        ensures
            r@ == self@,
    {
        let mut games: Vec<ProductGame> = Vec::new();
        let mut i: usize = 0;
        while i < self.games.len()
            invariant
                i <= self.games.len(),
                games.len() == i,
                forall|k: int| 0 <= k < i ==> games@[k]@ == self.games@[k]@,
            decreases self.games.len() - i,
        {
            games.push(self.games[i].clone());
            i += 1;
        }
        assert(games_view(games@) =~= games_view(self.games@));
        Product { id: self.id, games }
    }
}

} // verus!
