//! The records that the catalog returns for a game.

use vstd::prelude::*;

use crate::id::GameId;

verus! {

/// The organisation that issued an age rating.
#[derive(Debug, Clone, Copy, PartialEq, Eq, Structural, Hash)]
pub enum AgeRatingCategory {
    Esrb,
    Pegi,
    Cero,
    Usk,
    Grac,
    ClassInd,
    Acb,
}

impl AgeRatingCategory {
    /// The number that stands for the value in the catalog's records.
    pub open spec fn spec_code(self) -> u8 {
        match self {
            AgeRatingCategory::Esrb => 1,
            AgeRatingCategory::Pegi => 2,
            AgeRatingCategory::Cero => 3,
            AgeRatingCategory::Usk => 4,
            AgeRatingCategory::Grac => 5,
            AgeRatingCategory::ClassInd => 6,
            AgeRatingCategory::Acb => 7,
        }
    }

    pub fn code(&self) -> (r: u8)
        ensures
            r == self.spec_code(),
    {
        match self {
            AgeRatingCategory::Esrb => 1,
            AgeRatingCategory::Pegi => 2,
            AgeRatingCategory::Cero => 3,
            AgeRatingCategory::Usk => 4,
            AgeRatingCategory::Grac => 5,
            AgeRatingCategory::ClassInd => 6,
            AgeRatingCategory::Acb => 7,
        }
    }

    /// The value that `code` stands for; codes run from 1 to 7.
    pub fn from_code(code: u8) -> (r: Option<AgeRatingCategory>)
        ensures
            r is Some <==> 1 <= code <= 7,
            r matches Some(v) ==> v.spec_code() == code,
    {
        match code {
            1 => Some(AgeRatingCategory::Esrb),
            2 => Some(AgeRatingCategory::Pegi),
            3 => Some(AgeRatingCategory::Cero),
            4 => Some(AgeRatingCategory::Usk),
            5 => Some(AgeRatingCategory::Grac),
            6 => Some(AgeRatingCategory::ClassInd),
            7 => Some(AgeRatingCategory::Acb),
            _ => None,
        }
    }
}

/// An age rating as issued by one of the rating organisations.
#[derive(Debug, Clone, Copy, PartialEq, Eq, Structural, Hash)]
pub enum AgeRatingRating {
    Three,
    Seven,
    Twelve,
    Sixteen,
    Eighteen,
    Rp,
    Ec,
    E,
    E10,
    T,
    M,
    Ao,
    CeroA,
    CeroB,
    CeroC,
    CeroD,
    CeroZ,
    Usk0,
    Usk6,
    Usk12,
    Usk16,
    Usk18,
    GracAll,
    GracTwelve,
    GracFifteen,
    GracEighteen,
    GracTesting,
    ClassIndL,
    ClassIndTen,
    ClassIndTwelve,
    ClassIndFourteen,
    ClassIndSixteen,
    ClassIndEighteen,
    AcbG,
    AcbPG,
    AcbM,
    AcbMa15,
    AcbR18,
    AcbRc,
}

impl AgeRatingRating {
    /// The number that stands for the value in the catalog's records.
    pub open spec fn spec_code(self) -> u8 {
        match self {
            AgeRatingRating::Three => 1,
            AgeRatingRating::Seven => 2,
            AgeRatingRating::Twelve => 3,
            AgeRatingRating::Sixteen => 4,
            AgeRatingRating::Eighteen => 5,
            AgeRatingRating::Rp => 6,
            AgeRatingRating::Ec => 7,
            AgeRatingRating::E => 8,
            AgeRatingRating::E10 => 9,
            AgeRatingRating::T => 10,
            AgeRatingRating::M => 11,
            AgeRatingRating::Ao => 12,
            AgeRatingRating::CeroA => 13,
            AgeRatingRating::CeroB => 14,
            AgeRatingRating::CeroC => 15,
            AgeRatingRating::CeroD => 16,
            AgeRatingRating::CeroZ => 17,
            AgeRatingRating::Usk0 => 18,
            AgeRatingRating::Usk6 => 19,
            AgeRatingRating::Usk12 => 20,
            AgeRatingRating::Usk16 => 21,
            AgeRatingRating::Usk18 => 22,
            AgeRatingRating::GracAll => 23,
            AgeRatingRating::GracTwelve => 24,
            AgeRatingRating::GracFifteen => 25,
            AgeRatingRating::GracEighteen => 26,
            AgeRatingRating::GracTesting => 27,
            AgeRatingRating::ClassIndL => 28,
            AgeRatingRating::ClassIndTen => 29,
            AgeRatingRating::ClassIndTwelve => 30,
            AgeRatingRating::ClassIndFourteen => 31,
            AgeRatingRating::ClassIndSixteen => 32,
            AgeRatingRating::ClassIndEighteen => 33,
            AgeRatingRating::AcbG => 34,
            AgeRatingRating::AcbPG => 35,
            AgeRatingRating::AcbM => 36,
            AgeRatingRating::AcbMa15 => 37,
            AgeRatingRating::AcbR18 => 38,
            AgeRatingRating::AcbRc => 39,
        }
    }

    pub fn code(&self) -> (r: u8)
        ensures
            r == self.spec_code(),
    {
        match self {
            AgeRatingRating::Three => 1,
            AgeRatingRating::Seven => 2,
            AgeRatingRating::Twelve => 3,
            AgeRatingRating::Sixteen => 4,
            AgeRatingRating::Eighteen => 5,
            AgeRatingRating::Rp => 6,
            AgeRatingRating::Ec => 7,
            AgeRatingRating::E => 8,
            AgeRatingRating::E10 => 9,
            AgeRatingRating::T => 10,
            AgeRatingRating::M => 11,
            AgeRatingRating::Ao => 12,
            AgeRatingRating::CeroA => 13,
            AgeRatingRating::CeroB => 14,
            AgeRatingRating::CeroC => 15,
            AgeRatingRating::CeroD => 16,
            AgeRatingRating::CeroZ => 17,
            AgeRatingRating::Usk0 => 18,
            AgeRatingRating::Usk6 => 19,
            AgeRatingRating::Usk12 => 20,
            AgeRatingRating::Usk16 => 21,
            AgeRatingRating::Usk18 => 22,
            AgeRatingRating::GracAll => 23,
            AgeRatingRating::GracTwelve => 24,
            AgeRatingRating::GracFifteen => 25,
            AgeRatingRating::GracEighteen => 26,
            AgeRatingRating::GracTesting => 27,
            AgeRatingRating::ClassIndL => 28,
            AgeRatingRating::ClassIndTen => 29,
            AgeRatingRating::ClassIndTwelve => 30,
            AgeRatingRating::ClassIndFourteen => 31,
            AgeRatingRating::ClassIndSixteen => 32,
            AgeRatingRating::ClassIndEighteen => 33,
            AgeRatingRating::AcbG => 34,
            AgeRatingRating::AcbPG => 35,
            AgeRatingRating::AcbM => 36,
            AgeRatingRating::AcbMa15 => 37,
            AgeRatingRating::AcbR18 => 38,
            AgeRatingRating::AcbRc => 39,
        }
    }

    /// The value that `code` stands for; codes run from 1 to 39.
    pub fn from_code(code: u8) -> (r: Option<AgeRatingRating>)
        ensures
            r is Some <==> 1 <= code <= 39,
            r matches Some(v) ==> v.spec_code() == code,
    {
        match code {
            1 => Some(AgeRatingRating::Three),
            2 => Some(AgeRatingRating::Seven),
            3 => Some(AgeRatingRating::Twelve),
            4 => Some(AgeRatingRating::Sixteen),
            5 => Some(AgeRatingRating::Eighteen),
            6 => Some(AgeRatingRating::Rp),
            7 => Some(AgeRatingRating::Ec),
            8 => Some(AgeRatingRating::E),
            9 => Some(AgeRatingRating::E10),
            10 => Some(AgeRatingRating::T),
            11 => Some(AgeRatingRating::M),
            12 => Some(AgeRatingRating::Ao),
            13 => Some(AgeRatingRating::CeroA),
            14 => Some(AgeRatingRating::CeroB),
            15 => Some(AgeRatingRating::CeroC),
            16 => Some(AgeRatingRating::CeroD),
            17 => Some(AgeRatingRating::CeroZ),
            18 => Some(AgeRatingRating::Usk0),
            19 => Some(AgeRatingRating::Usk6),
            20 => Some(AgeRatingRating::Usk12),
            21 => Some(AgeRatingRating::Usk16),
            22 => Some(AgeRatingRating::Usk18),
            23 => Some(AgeRatingRating::GracAll),
            24 => Some(AgeRatingRating::GracTwelve),
            25 => Some(AgeRatingRating::GracFifteen),
            26 => Some(AgeRatingRating::GracEighteen),
            27 => Some(AgeRatingRating::GracTesting),
            28 => Some(AgeRatingRating::ClassIndL),
            29 => Some(AgeRatingRating::ClassIndTen),
            30 => Some(AgeRatingRating::ClassIndTwelve),
            31 => Some(AgeRatingRating::ClassIndFourteen),
            32 => Some(AgeRatingRating::ClassIndSixteen),
            33 => Some(AgeRatingRating::ClassIndEighteen),
            34 => Some(AgeRatingRating::AcbG),
            35 => Some(AgeRatingRating::AcbPG),
            36 => Some(AgeRatingRating::AcbM),
            37 => Some(AgeRatingRating::AcbMa15),
            38 => Some(AgeRatingRating::AcbR18),
            39 => Some(AgeRatingRating::AcbRc),
            _ => None,
        }
    }
}

/// The kind of a gaming platform.
#[derive(Debug, Clone, Copy, PartialEq, Eq, Structural, Hash)]
pub enum PlatformCategory {
    Console,
    Arcade,
    Platform,
    OperatingSystem,
    PortableConsole,
    Computer,
}

impl PlatformCategory {
    /// The number that stands for the value in the catalog's records.
    pub open spec fn spec_code(self) -> u8 {
        match self {
            PlatformCategory::Console => 1,
            PlatformCategory::Arcade => 2,
            PlatformCategory::Platform => 3,
            PlatformCategory::OperatingSystem => 4,
            PlatformCategory::PortableConsole => 5,
            PlatformCategory::Computer => 6,
        }
    }

    pub fn code(&self) -> (r: u8)
        ensures
            r == self.spec_code(),
    {
        match self {
            PlatformCategory::Console => 1,
            PlatformCategory::Arcade => 2,
            PlatformCategory::Platform => 3,
            PlatformCategory::OperatingSystem => 4,
            PlatformCategory::PortableConsole => 5,
            PlatformCategory::Computer => 6,
        }
    }

    /// The value that `code` stands for; codes run from 1 to 6.
    pub fn from_code(code: u8) -> (r: Option<PlatformCategory>)
        ensures
            r is Some <==> 1 <= code <= 6,
            r matches Some(v) ==> v.spec_code() == code,
    {
        match code {
            1 => Some(PlatformCategory::Console),
            2 => Some(PlatformCategory::Arcade),
            3 => Some(PlatformCategory::Platform),
            4 => Some(PlatformCategory::OperatingSystem),
            5 => Some(PlatformCategory::PortableConsole),
            6 => Some(PlatformCategory::Computer),
            _ => None,
        }
    }
}

/// An age rating of a game.
#[derive(Debug)]
pub struct AgeRating {
    pub category: AgeRatingCategory,
    pub rating: AgeRatingRating,
    pub rating_cover_url: Option<String>,
}

/// A link to an asset.
#[derive(Debug)]
pub struct UrlField {
    pub url: String,
}

/// A named attribute (genre, theme, game mode, keyword, ...).
#[derive(Debug)]
pub struct NameField {
    pub name: String,
}

/// A game engine.
#[derive(Debug)]
pub struct GameEngine {
    pub name: String,
    pub logo: Option<UrlField>,
}

/// A company; `start_date` is a Unix timestamp in seconds.
#[derive(Debug)]
pub struct Company {
    pub country: Option<u32>,
    pub logo: Option<UrlField>,
    pub name: String,
    pub start_date: Option<i64>,
}

/// The part a company took in making a game.
#[derive(Debug)]
pub struct InvolvedCompany {
    pub developer: bool,
    pub porting: bool,
    pub publisher: bool,
    pub supporting: bool,
    pub company: Company,
}

/// The cooperative modes a game offers.
#[derive(Debug)]
pub struct MultiplayerMode {
    pub campaigncoop: bool,
    pub lancoop: bool,
    pub offlinecoop: bool,
    pub onlinecoop: bool,
}

/// A platform a game was released on.
#[derive(Debug)]
pub struct Platform {
    pub category: Option<PlatformCategory>,
    pub name: String,
    pub generation: Option<u32>,
    pub platform_logo: Option<UrlField>,
}

/// A release date; `date` is a Unix timestamp in seconds.
#[derive(Debug)]
pub struct DateField {
    pub date: Option<i64>,
}

/// Offset that moves non-negative bit patterns above negative ones.
pub const SIGN_BIT: u64 = 0x8000_0000_0000_0000;

/// The position of a binary64 bit pattern in the total order of
/// `f64::total_cmp`: negative numbers (sign bit set) below positive ones, the
/// larger the magnitude of a negative number the lower.
pub open spec fn rating_key(bits: u64) -> int {
    if bits >= SIGN_BIT {
        u64::MAX - bits
    } else {
        bits + SIGN_BIT
    }
}

/// A rating: an IEEE-754 binary64 number held as its bit pattern.
#[derive(Debug, Clone, Copy, PartialEq, Eq, Structural)]
pub struct Rating {
    pub bits: u64,
}

impl Rating {
    /// A key whose integer order is the order of the ratings as numbers.
    pub fn order_key(&self) -> (r: u64)
        ensures
            r == rating_key(self.bits),
    {
        if self.bits >= SIGN_BIT {
            u64::MAX - self.bits
        } else {
            self.bits + SIGN_BIT
        }
    }
}

/// Which of the three ratings of a record to rank by.
#[derive(Debug, Clone, Copy, PartialEq, Eq, Structural)]
pub enum RatingKind {
    User,
    Critic,
    Total,
}

impl RatingKind {
    /// The title of a ranking by this rating.
    pub fn to_string(&self) -> (r: String)
        ensures
            r@ == self.spec_title(),
    {
        match self {
            RatingKind::User => String::from_str("IGDB User Ranking"),
            RatingKind::Critic => String::from_str("IGDB Critic Ranking"),
            RatingKind::Total => String::from_str("IGDB Ranking"),
        }
    }

    pub open spec fn spec_title(self) -> Seq<char> {
        match self {
            RatingKind::User => "IGDB User Ranking"@,
            RatingKind::Critic => "IGDB Critic Ranking"@,
            RatingKind::Total => "IGDB Ranking"@,
        }
    }
}

/// The catalog's record of one game; `first_release_date` is a Unix
/// timestamp in seconds.
#[derive(Debug)]
pub struct Meta {
    pub id: GameId,
    pub age_ratings: Vec<AgeRating>,
    pub aggregated_rating: Option<Rating>,
    pub aggregated_rating_count: Option<u32>,
    pub cover: Option<UrlField>,
    pub first_release_date: i64,
    pub franchise: Option<NameField>,
    pub game_engines: Vec<GameEngine>,
    pub game_modes: Vec<NameField>,
    pub genres: Vec<NameField>,
    pub involved_companies: Vec<InvolvedCompany>,
    pub keywords: Vec<NameField>,
    pub multiplayer_modes: Vec<MultiplayerMode>,
    pub name: String,
    pub platforms: Vec<Platform>,
    pub player_perspectives: Vec<NameField>,
    pub release_dates: Vec<DateField>,
    pub themes: Vec<NameField>,
    pub rating: Option<Rating>,
    pub rating_count: Option<u32>,
    pub total_rating: Option<Rating>,
    pub total_rating_count: Option<u32>,
}

impl Meta {
    /// The rating of the given kind, if the record has one.
    pub open spec fn spec_rating(self, kind: RatingKind) -> Option<Rating> {
        match kind {
            RatingKind::User => self.rating,
            RatingKind::Critic => self.aggregated_rating,
            RatingKind::Total => self.total_rating,
        }
    }

    pub fn rating_of(&self, kind: RatingKind) -> (r: Option<Rating>)
        ensures
            r == self.spec_rating(kind),
    {
        match kind {
            RatingKind::User => self.rating,
            RatingKind::Critic => self.aggregated_rating,
            RatingKind::Total => self.total_rating,
        }
    }
}

} // verus!
