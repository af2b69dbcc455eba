//! A generic engine for exhaustive search over very large candidate spaces:
//! lazily enumerated spaces that hand out work in batches, a controller that
//! sizes those batches, the per-worker steps of a flat search that folds all
//! discoveries into one best state, and a two-level work queue with the
//! per-worker steps of a tree search.

pub mod batch_size;
pub mod clock;
pub mod fast_deque;
pub mod problem;
pub mod reporter;
pub mod search;
pub mod spaces;
pub mod stats;
pub mod step;
pub mod tree_search;

pub use batch_size::BatchSizeOptimizer;
pub use fast_deque::FastDeque;
pub use problem::Problem;
pub use reporter::{NullReporter, Reporter};
pub use search::{evaluate, Mutable, Stitches};
pub use stats::Stats;
pub use tree_search::{expand, prepare, seeded, Pending, TreeSpace, Withdrawal};
