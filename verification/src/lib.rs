//! Cleaning, encoding and bucketing of short-term rental listings, with the
//! integer side of preparing them for a decision-tree classifier.
//!
//! Every quantity is an integer. A price is held in hundredths of the currency
//! unit, and outlier bounds are held in halves of a column's unit, so that the
//! factor 1.5 of the interquartile rule stays exact.

pub mod bounds;
pub mod category;
pub mod dataset;
pub mod encoding;
pub mod evaluation;
pub mod filter;
pub mod output;
pub mod percentile;
pub mod pipeline;
pub mod record;

pub use bounds::{calculate_bounds, Bounds};
pub use category::{
    categorize_price, encode_room_type, price_thresholds, PriceCategory, PriceCategoryPolicy,
    PriceThresholds, FIXED_LOW_BELOW, FIXED_MEDIUM_BELOW, PRICE_SCALE, UNKNOWN_ROOM_TYPE,
};
pub use dataset::{preprocess_data, split_at_percent, split_data, FEATURE_COUNT};
pub use encoding::{build_encoding, EncodingMap};
pub use evaluation::{
    evaluate_decision_tree, find_best_max_depth, find_best_trial,
    get_decision_tree_feature_importance, get_feature_names, DepthTrial, RankedFeature,
};
pub use filter::{collect_column, filter_column, filter_outliers, outlier_bounds, OutlierBounds};
pub use percentile::{calculate_percentile, rank_for, sort_ascending, EmptyInputError};
pub use pipeline::{
    build_category_encoding, clean_records, collect_category, emit_records, encode_records,
    CategoricalColumn,
};
pub use output::{cleaned_header, to_decimal};
pub use record::{AirbnbCleanedRecord, AirbnbRecord, Column};
