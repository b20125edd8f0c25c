//! Snapshot history, metadata store and analytics for a ranked list of games
//! enriched from an external catalog.

pub mod analytics;
pub mod data;
pub mod date;
pub mod id;
pub mod igdb;
pub mod lists;
pub mod meta;
pub mod order;
pub mod resource;
pub mod store;
pub mod style;
pub mod tally;
pub mod text;

pub use id::{GameId, GameIdView};
pub use date::Iso8601Date;
pub use meta::{
    AgeRating, AgeRatingCategory, AgeRatingRating, Company, DateField, GameEngine,
    InvolvedCompany, Meta, MultiplayerMode, NameField, Platform, PlatformCategory, Rating,
    RatingKind, UrlField,
};
pub use store::Metas;
pub use lists::{List, Lists};
pub use data::{missing_metas, Data, DataError};
pub use igdb::{
    games_query, Exchange, ExchangeStep, IgdbRequestor, GAMES_URL, RATE_LIMIT_COOLDOWN_SECS,
    TOKEN_URL, TOO_MANY_REQUESTS,
};
pub use resource::{locate, ImageSize, ResourceLocation, MAX_CONNECTIONS};
pub use style::{Color, Font, MarkerKind};
