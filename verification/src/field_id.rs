//! Hotline parameter field identifiers.

use vstd::prelude::*;

verus! {

/// Identifier of a parameter in a transaction's parameter block.
#[derive(Clone, Copy, Debug, PartialEq, Eq, Structural)]
pub enum FieldId {
    /// Free-form data, such as chat text (101).
    Data,
    /// User display name (102).
    Name,
    /// User identifier (103).
    UserId,
    /// User icon identifier (104).
    IconId,
    /// Account login (105).
    Login,
    /// Account password (106).
    Password,
    /// Option bits (113).
    Options,
    /// Client version (160).
    Version,
    /// Server banner identifier (161).
    BannerId,
    /// Server name (162).
    ServerName,
    /// File name (201).
    FileName,
    /// Automatic response text (215).
    AutoResponse,
    /// User name with info record (300).
    UserNameWithInfo,
    /// News article list data (321).
    NewsArticle,
    /// News category name (322).
    NewsCategory,
    /// News path (325).
    NewsPath,
    /// News article identifier (326).
    NewsArticleId,
    /// News article data flavour (327).
    NewsDataFlavor,
    /// News article title (328).
    NewsTitle,
    /// News article poster (329).
    NewsPoster,
    /// News article body (333).
    NewsArticleData,
    /// News article flags (334).
    NewsArticleFlags,
    /// Any other identifier.
    Other(u16),
}

/// Wire code of a field identifier.
pub open spec fn field_code(f: FieldId) -> u16 {
    match f {
        FieldId::Data => 101,
        FieldId::Name => 102,
        FieldId::UserId => 103,
        FieldId::IconId => 104,
        FieldId::Login => 105,
        FieldId::Password => 106,
        FieldId::Options => 113,
        FieldId::Version => 160,
        FieldId::BannerId => 161,
        FieldId::ServerName => 162,
        FieldId::FileName => 201,
        FieldId::AutoResponse => 215,
        FieldId::UserNameWithInfo => 300,
        FieldId::NewsArticle => 321,
        FieldId::NewsCategory => 322,
        FieldId::NewsPath => 325,
        FieldId::NewsArticleId => 326,
        FieldId::NewsDataFlavor => 327,
        FieldId::NewsTitle => 328,
        FieldId::NewsPoster => 329,
        FieldId::NewsArticleData => 333,
        FieldId::NewsArticleFlags => 334,
        FieldId::Other(c) => c,
    }
}

/// Field identifier named by a wire code.
pub open spec fn field_from_code(c: u16) -> FieldId {
    if c == 101 {
        FieldId::Data
    } else if c == 102 {
        FieldId::Name
    } else if c == 103 {
        FieldId::UserId
    } else if c == 104 {
        FieldId::IconId
    } else if c == 105 {
        FieldId::Login
    } else if c == 106 {
        FieldId::Password
    } else if c == 113 {
        FieldId::Options
    } else if c == 160 {
        FieldId::Version
    } else if c == 161 {
        FieldId::BannerId
    } else if c == 162 {
        FieldId::ServerName
    } else if c == 201 {
        FieldId::FileName
    } else if c == 215 {
        FieldId::AutoResponse
    } else if c == 300 {
        FieldId::UserNameWithInfo
    } else if c == 321 {
        FieldId::NewsArticle
    } else if c == 322 {
        FieldId::NewsCategory
    } else if c == 325 {
        FieldId::NewsPath
    } else if c == 326 {
        FieldId::NewsArticleId
    } else if c == 327 {
        FieldId::NewsDataFlavor
    } else if c == 328 {
        FieldId::NewsTitle
    } else if c == 329 {
        FieldId::NewsPoster
    } else if c == 333 {
        FieldId::NewsArticleData
    } else if c == 334 {
        FieldId::NewsArticleFlags
    } else {
        FieldId::Other(c)
    }
}

/// A field identifier is canonical when reading its code back names it
/// again (an `Other` holding a known code is not).
pub open spec fn field_canonical(f: FieldId) -> bool {
    field_from_code(field_code(f)) == f
}

/// Every wire code survives a trip through `FieldId`.
pub proof fn lemma_field_code_round_trip(c: u16)
    ensures
        field_code(field_from_code(c)) == c,
        field_canonical(field_from_code(c)),
{
}

/// Every named field travels on the wire under its Hotline protocol
/// number, and that number is read back as the named field: the client
/// version is field 160, the banner fields are 161 and 162, and so on.
pub proof fn lemma_field_protocol_numbers()
    ensures
        field_code(FieldId::Data) == 101u16 && field_from_code(101u16) == FieldId::Data,
        field_code(FieldId::Name) == 102u16 && field_from_code(102u16) == FieldId::Name,
        field_code(FieldId::UserId) == 103u16 && field_from_code(103u16) == FieldId::UserId,
        field_code(FieldId::IconId) == 104u16 && field_from_code(104u16) == FieldId::IconId,
        field_code(FieldId::Login) == 105u16 && field_from_code(105u16) == FieldId::Login,
        field_code(FieldId::Password) == 106u16 && field_from_code(106u16) == FieldId::Password,
        field_code(FieldId::Options) == 113u16 && field_from_code(113u16) == FieldId::Options,
        field_code(FieldId::Version) == 160u16 && field_from_code(160u16) == FieldId::Version,
        field_code(FieldId::BannerId) == 161u16 && field_from_code(161u16) == FieldId::BannerId,
        field_code(FieldId::ServerName) == 162u16 && field_from_code(162u16) == FieldId::ServerName,
        field_code(FieldId::FileName) == 201u16 && field_from_code(201u16) == FieldId::FileName,
        field_code(FieldId::AutoResponse) == 215u16 && field_from_code(215u16) == FieldId::AutoResponse,
        field_code(FieldId::UserNameWithInfo) == 300u16 && field_from_code(300u16) == FieldId::UserNameWithInfo,
        field_code(FieldId::NewsArticle) == 321u16 && field_from_code(321u16) == FieldId::NewsArticle,
        field_code(FieldId::NewsCategory) == 322u16 && field_from_code(322u16) == FieldId::NewsCategory,
        field_code(FieldId::NewsPath) == 325u16 && field_from_code(325u16) == FieldId::NewsPath,
        field_code(FieldId::NewsArticleId) == 326u16 && field_from_code(326u16) == FieldId::NewsArticleId,
        field_code(FieldId::NewsDataFlavor) == 327u16 && field_from_code(327u16) == FieldId::NewsDataFlavor,
        field_code(FieldId::NewsTitle) == 328u16 && field_from_code(328u16) == FieldId::NewsTitle,
        field_code(FieldId::NewsPoster) == 329u16 && field_from_code(329u16) == FieldId::NewsPoster,
        field_code(FieldId::NewsArticleData) == 333u16 && field_from_code(333u16) == FieldId::NewsArticleData,
        field_code(FieldId::NewsArticleFlags) == 334u16 && field_from_code(334u16) == FieldId::NewsArticleFlags,
        forall|c: u16| field_from_code(c) == FieldId::Version <==> c == 160,
        forall|c: u16| (field_from_code(c) is Other) <==> !(
            c == 101 || c == 102 || c == 103 || c == 104 || c == 105 || c == 106 || c == 113
            || c == 160 || c == 161 || c == 162 || c == 201 || c == 215 || c == 300 || c == 321
            || c == 322 || c == 325 || c == 326 || c == 327 || c == 328 || c == 329 || c == 333
            || c == 334),
{
}

impl FieldId {
    /// Field identifier named by a wire code.
    pub fn from_u16(c: u16) -> (f: FieldId)
        ensures
            f == field_from_code(c),
    {
        if c == 101 {
            FieldId::Data
        } else if c == 102 {
            FieldId::Name
        } else if c == 103 {
            FieldId::UserId
        } else if c == 104 {
            FieldId::IconId
        } else if c == 105 {
            FieldId::Login
        } else if c == 106 {
            FieldId::Password
        } else if c == 113 {
            FieldId::Options
        } else if c == 160 {
            FieldId::Version
        } else if c == 161 {
            FieldId::BannerId
        } else if c == 162 {
            FieldId::ServerName
        } else if c == 201 {
            FieldId::FileName
        } else if c == 215 {
            FieldId::AutoResponse
        } else if c == 300 {
            FieldId::UserNameWithInfo
        } else if c == 321 {
            FieldId::NewsArticle
        } else if c == 322 {
            FieldId::NewsCategory
        } else if c == 325 {
            FieldId::NewsPath
        } else if c == 326 {
            FieldId::NewsArticleId
        } else if c == 327 {
            FieldId::NewsDataFlavor
        } else if c == 328 {
            FieldId::NewsTitle
        } else if c == 329 {
            FieldId::NewsPoster
        } else if c == 333 {
            FieldId::NewsArticleData
        } else if c == 334 {
            FieldId::NewsArticleFlags
        } else {
            FieldId::Other(c)
        }
    }

    /// Wire code of this field identifier.
    pub fn to_u16(&self) -> (c: u16)
        ensures
            c == field_code(*self),
    {
        match self {
            FieldId::Data => 101,
            FieldId::Name => 102,
            FieldId::UserId => 103,
            FieldId::IconId => 104,
            FieldId::Login => 105,
            FieldId::Password => 106,
            FieldId::Options => 113,
            FieldId::Version => 160,
            FieldId::BannerId => 161,
            FieldId::ServerName => 162,
            FieldId::FileName => 201,
            FieldId::AutoResponse => 215,
            FieldId::UserNameWithInfo => 300,
            FieldId::NewsArticle => 321,
            FieldId::NewsCategory => 322,
            FieldId::NewsPath => 325,
            FieldId::NewsArticleId => 326,
            FieldId::NewsDataFlavor => 327,
            FieldId::NewsTitle => 328,
            FieldId::NewsPoster => 329,
            FieldId::NewsArticleData => 333,
            FieldId::NewsArticleFlags => 334,
            FieldId::Other(c) => *c,
        }
    }
}

} // verus!
