use vstd::prelude::*;

pub mod borrowed;
pub mod owned;

verus! {

/// How a backend-reference rule is guarded: switch to the backend if the
/// condition holds, or unless it holds.
#[derive(Clone, Copy, Debug, PartialEq, Eq, Structural)]
pub enum BackendModifier {
    If,
    Unless,
}

/// Mathematical value of an address: host text as a character sequence,
/// an optional port, and whether the address is a wildcard.
pub struct AddressModel {
    pub host: Seq<char>,
    pub port: Option<u16>,
    pub wildcard: bool,
}

/// Mathematical value of a credential: plain text or a hash.
pub enum PasswordModel {
    Plain(Seq<char>),
    Hashed(Seq<char>),
}

/// Mathematical value of one classified configuration line.
///
/// The borrowed and the owned exec forms both view to this single type, so
/// that the borrowed-to-owned conversion can be stated as equality of views.
pub enum LineModel {
    Blank,
    Comment(Seq<char>),
    Config { key: Seq<char>, value: Option<Seq<char>>, comment: Option<Seq<char>> },
    Option { keyword: Seq<char>, value: Option<Seq<char>>, comment: Option<Seq<char>> },
    Acl { name: Seq<char>, rule: Option<Seq<char>>, comment: Option<Seq<char>> },
    Server { name: Seq<char>, addr: AddressModel, option: Option<Seq<char>>, comment: Option<Seq<char>> },
    Bind { addr: AddressModel, value: Option<Seq<char>>, comment: Option<Seq<char>> },
    Backend {
        name: Seq<char>,
        modifier: Option<BackendModifier>,
        condition: Option<Seq<char>>,
        comment: Option<Seq<char>>,
    },
    Group { name: Seq<char>, users: Seq<Seq<char>>, comment: Option<Seq<char>> },
    User {
        name: Seq<char>,
        password: PasswordModel,
        groups: Seq<Seq<char>>,
        comment: Option<Seq<char>>,
    },
    SysUser { name: Seq<char> },
}

} // verus!
