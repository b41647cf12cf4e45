//! The items that a user of the library names most often.
pub use crate::error::{ConfigError, SpecError};
pub use crate::loading::{LoadState, LoadingHandles, PendingStatus, SpecLoadingHandles};
pub use crate::name_index::NameIndex;
pub use crate::named_handle::{Handle, NamedHandle, Record, RefField};
pub use crate::plugin::{AppHelperSpecLoaderTrait, AppHelperSpecRegisterTrait, AppState, SpecPlugin};
pub use crate::pool::{GetNamedTrait, Pool};
pub use crate::populate::{populate_all, populate_handles, PopulateHandles};
