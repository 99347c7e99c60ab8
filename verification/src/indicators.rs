//! The concrete indicators: one module per algorithm variant, each
//! independently satisfying the shared capability set.

pub mod cross_above;
pub mod cross_below;
pub mod highest_high_value;
pub mod linear_regression_prediction;
pub mod lowest_low_value;

pub use cross_above::CrossAbove;
pub use cross_below::CrossBelow;
pub use highest_high_value::HighestHighValue;
pub use linear_regression_prediction::LinearRegressionPrediction;
pub use lowest_low_value::LowestLowValue;
