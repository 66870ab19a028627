//! What a run is asked to do, and how that is made out of the arguments.

use vstd::prelude::*;
use crate::file_system::entry_type::EntryType;
use crate::filter::{
    compile_regex, globs_compile, make_globset, regex_compiles, texts, DirEntryFilter,
};
use crate::units::system::UnitSystem;
use crate::utils::tree::TreeDepth;

verus! {

/// The order in which entries are shown.
#[derive(Clone, Copy, Debug, PartialEq, Eq, Structural)]
pub enum SortBy {
    /// By name, without regard to case.
    Name,
    /// By size, the largest first.
    Size,
    /// By kind: directories, then files, then the rest.
    Type,
}

/// The arguments of a run, as they were given.
pub struct Args {
    /// The directory to scan.
    pub dir: String,
    pub sort_by_name: bool,
    pub sort_by_size: bool,
    pub sort_by_type: bool,
    pub reverse: bool,
    pub si: bool,
    pub binary: bool,
    /// Count lines and show them in place of sizes.
    pub lines: bool,
    /// A regular expression that the names of the entries must match.
    pub regex: Option<String>,
    /// Globs of which a name must match one, if there are any.
    pub includes: Vec<String>,
    /// Globs of which a name must match none.
    pub excludes: Vec<String>,
    pub dirs_only: bool,
    pub files_only: bool,
    pub min_size: Option<u64>,
    pub max_size: Option<u64>,
    pub max_bar_width: u32,
    pub children_depth: Option<TreeDepth>,
    pub max_threads: Option<usize>,
    pub no_errors: bool,
}

/// What a run does.
pub struct Config {
    pub dir: String,
    pub unit_system: UnitSystem,
    pub sort_by: Option<SortBy>,
    pub reverse: bool,
    pub filter: Option<DirEntryFilter>,
    pub needs_type: Option<EntryType>,
    pub min_size: Option<u64>,
    pub max_size: Option<u64>,
    pub max_bar_width: u32,
    pub children_depth: Option<TreeDepth>,
    pub max_threads: Option<usize>,
    pub no_errors: bool,
}

/// Why arguments give no `Config`.
pub enum ConfigError {
    /// The least size is not under the greatest. With one of them missing,
    /// 0 or the largest number stands for it.
    SizeRange { min_size: u64, max_size: u64 },
    /// The regular expression does not compile.
    Regex(regex::Error),
    /// A glob does not parse, or the globs make no set.
    Glob(globset::Error),
}

impl Args {
    /// The least size asked for; 0 where none is.
    pub open spec fn least_size(self) -> u64 {
        match self.min_size {
            Some(size) => size,
            None => 0,
        }
    }

    /// The greatest size asked for; the largest number where none is.
    pub open spec fn greatest_size(self) -> u64 {
        match self.max_size {
            Some(size) => size,
            None => u64::MAX,
        }
    }

    /// The unit system asked for: lines before binary before decimal
    /// multiples, and plain bytes where none is asked for.
    pub open spec fn chosen_units(self) -> UnitSystem {
        if self.lines {
            UnitSystem::Lines
        } else if self.binary {
            UnitSystem::Binary
        } else if self.si {
            UnitSystem::SI
        } else {
            UnitSystem::Raw
        }
    }

    /// The order asked for: by name before by size before by kind.
    pub open spec fn chosen_order(self) -> Option<SortBy> {
        if self.sort_by_name {
            Some(SortBy::Name)
        } else if self.sort_by_size {
            Some(SortBy::Size)
        } else if self.sort_by_type {
            Some(SortBy::Type)
        } else {
            None
        }
    }

    /// The kind of entry asked for: directories before files.
    pub open spec fn chosen_type(self) -> Option<EntryType> {
        if self.dirs_only {
            Some(EntryType::Dir)
        } else if self.files_only {
            Some(EntryType::File)
        } else {
            None
        }
    }

    /// Globs are given, and no regular expression, which would go before
    /// them.
    pub open spec fn wants_globs(self) -> bool {
        self.regex is None && (self.includes@.len() > 0 || self.excludes@.len() > 0)
    }

    /// `filter` is the filter asked for: the regular expression where one is
    /// given, else the globs where any are given, else none.
    pub open spec fn filter_is(self, filter: Option<DirEntryFilter>) -> bool {
        match self.regex {
            Some(pattern) => filter matches Some(DirEntryFilter::Regex(regex)) && regex@
                == pattern@,
            None => if self.wants_globs() {
                filter matches Some(DirEntryFilter::Glob { includes, excludes }) && includes@
                    == texts(self.includes@) && excludes@ == texts(self.excludes@)
            } else {
                filter is None
            },
        }
    }

    /// Makes the `Config` of a run out of its arguments.
    ///
    /// It fails where the least size is not under the greatest; else where
    /// the regular expression does not compile; else, without a regular
    /// expression, where the globs to include or those to exclude do not
    /// compile. Else it gives the `Config` that the arguments describe.
    pub fn try_into(self) -> (config: Result<Config, ConfigError>)
        ensures
            match config {
                Ok(config) => {
                    &&& self.least_size() < self.greatest_size()
                    &&& config.dir@ == self.dir@
                    &&& config.unit_system == self.chosen_units()
                    &&& config.sort_by == self.chosen_order()
                    &&& config.reverse == self.reverse
                    &&& self.filter_is(config.filter)
                    &&& config.needs_type == self.chosen_type()
                    &&& config.min_size == self.min_size
                    &&& config.max_size == self.max_size
                    &&& config.max_bar_width == self.max_bar_width
                    &&& config.children_depth == self.children_depth
                    &&& config.max_threads == self.max_threads
                    &&& config.no_errors == self.no_errors
                },
                Err(ConfigError::SizeRange { min_size, max_size }) => {
                    &&& !(self.least_size() < self.greatest_size())
                    &&& min_size == self.least_size()
                    &&& max_size == self.greatest_size()
                },
                Err(ConfigError::Regex(_)) => {
                    &&& self.least_size() < self.greatest_size()
                    &&& self.regex matches Some(pattern) && !regex_compiles(pattern@)
                },
                Err(ConfigError::Glob(_)) => {
                    &&& self.least_size() < self.greatest_size()
                    &&& self.wants_globs()
                    &&& !globs_compile(texts(self.includes@)) || !globs_compile(
                        texts(self.excludes@),
                    )
                },
            },
    {
        let actual_min: u64 = match self.min_size {
            Some(size) => size,
            None => 0,
        };
        let actual_max: u64 = match self.max_size {
            Some(size) => size,
            None => u64::MAX,
        };
        if !(actual_min < actual_max) {
            return Err(ConfigError::SizeRange { min_size: actual_min, max_size: actual_max });
        }
        let unit_system = if self.lines {
            UnitSystem::Lines
        } else if self.binary {
            UnitSystem::Binary
        } else if self.si {
            UnitSystem::SI
        } else {
            UnitSystem::Raw
        };
        let sort_by = if self.sort_by_name {
            Some(SortBy::Name)
        } else if self.sort_by_size {
            Some(SortBy::Size)
        } else if self.sort_by_type {
            Some(SortBy::Type)
        } else {
            None
        };
        let filter = if let Some(pattern) = &self.regex {
            match compile_regex(pattern.as_str()) {
                Ok(regex) => Some(DirEntryFilter::Regex(regex)),
                Err(error) => {
                    return Err(ConfigError::Regex(error));
                },
            }
        } else if self.includes.len() > 0 || self.excludes.len() > 0 {
            let includes = match make_globset(&self.includes) {
                Ok(globs) => globs,
                Err(error) => {
                    return Err(ConfigError::Glob(error));
                },
            };
            let excludes = match make_globset(&self.excludes) {
                Ok(globs) => globs,
                Err(error) => {
                    return Err(ConfigError::Glob(error));
                },
            };
            Some(DirEntryFilter::Glob { includes, excludes })
        } else {
            None
        };
        let needs_type = if self.dirs_only {
            Some(EntryType::Dir)
        } else if self.files_only {
            Some(EntryType::File)
        } else {
            None
        };
        Ok(
            Config {
                dir: self.dir,
                unit_system,
                sort_by,
                filter,
                reverse: self.reverse,
                needs_type,
                min_size: self.min_size,
                max_size: self.max_size,
                max_bar_width: self.max_bar_width,
                children_depth: self.children_depth,
                max_threads: self.max_threads,
                no_errors: self.no_errors,
            },
        )
    }
}

} // verus!
