pub mod answer;
pub mod confidence;
pub mod inspection;
pub mod json;
pub mod pool;
pub mod query;
pub mod rank;
pub mod search;
pub mod shortfall;
pub mod snippet;
pub mod snapshot;
pub mod text;
