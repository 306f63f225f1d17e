use vstd::prelude::*;
use vstd::string::*;

use crate::utils::{h2w_suffix, has_h2w_suffix};

verus! {

/// Arguments that reading and writing share.
#[derive(Debug, Clone)]
pub struct CommonArgs {
    /// Number of the first test file.
    pub start_at: i64,
    /// Number of the last test file; zero for no limit.
    pub end_at: i64,
    /// Whether progress is shown.
    pub show_progress: bool,
    /// Path of the device's mount point, or of one test file.
    pub dev_path: String,
}

/// Arguments of a write run.
#[derive(Debug)]
pub struct WriteArgs {
    /// Arguments shared with a read run.
    pub common: CommonArgs,
    /// Maximum write rate in KiB per second; zero for no limit.
    pub max_write_rate: i64,
}

/// Arguments of a read run.
#[derive(Debug)]
pub struct ReadArgs {
    /// Arguments shared with a write run.
    pub common: CommonArgs,
    /// Maximum read rate in KiB per second; zero for no limit.
    pub max_read_rate: i64,
    /// Whether a single test file is read rather than a directory of them.
    pub read_single_file: bool,
}

/// Why a set of arguments is refused.
#[derive(Clone, Copy, PartialEq, Eq, Debug, Structural)]
pub enum ArgsError {
    /// No device path was given.
    NoDevPath,
    /// The first file number is below 1.
    StartAt,
    /// The last file number is neither zero nor at least the first.
    EndAt,
    /// The maximum write rate is negative.
    MaxWriteRate,
    /// The maximum read rate is negative.
    MaxReadRate,
}

/// The first fault of the shared arguments, if they have one.
pub open spec fn common_fault(start_at: int, end_at: int, dev_path: Seq<char>) -> Option<
    ArgsError,
> {
    if dev_path.len() == 0 {
        Some(ArgsError::NoDevPath)
    } else if start_at < 1 {
        Some(ArgsError::StartAt)
    } else if end_at < start_at && end_at != 0 {
        Some(ArgsError::EndAt)
    } else {
        None
    }
}

/// `path` with `separator` behind it, unless it ends in one already.
pub open spec fn with_separator(path: Seq<char>, separator: char) -> Seq<char> {
    if path.len() > 0 && path.last() == separator {
        path
    } else {
        path.push(separator)
    }
}

/// `String::push`: appends one character to the string.
#[verifier::external_body]
fn push_char(s: &mut String, c: char)
    ensures
        final(s)@ == old(s)@.push(c),
{
    s.push(c)
}

/// Puts `separator` behind `path` unless it ends in one already.
fn ensure_separator(path: &mut String, separator: char)
    ensures
        final(path)@ == with_separator(old(path)@, separator),
{
    let len = path.as_str().unicode_len();
    if len == 0 || path.as_str().get_char(len - 1) != separator {
        push_char(path, separator);
    }
}

impl CommonArgs {
    /// Checks the shared arguments: a device path must be given, the first
    /// file number must be at least 1, and the last one zero or no less than
    /// the first.
    pub fn validate_args(&self) -> (checked: Result<(), ArgsError>)
        ensures
            match checked {
                Ok(()) => common_fault(self.start_at as int, self.end_at as int, self.dev_path@)
                    is None,
                Err(fault) => common_fault(
                    self.start_at as int,
                    self.end_at as int,
                    self.dev_path@,
                ) == Some(fault),
            },
    {
        if self.dev_path.as_str().unicode_len() == 0 {
            return Err(ArgsError::NoDevPath);
        }
        if self.start_at < 1 {
            return Err(ArgsError::StartAt);
        }
        if self.end_at < self.start_at && self.end_at != 0 {
            return Err(ArgsError::EndAt);
        }
        Ok(())
    }
}

impl WriteArgs {
    /// The first fault of the arguments, if they have one.
    pub open spec fn fault(&self) -> Option<ArgsError> {
        let common = common_fault(
            self.common.start_at as int,
            self.common.end_at as int,
            self.common.dev_path@,
        );
        if common is Some {
            common
        } else if self.max_write_rate < 0 {
            Some(ArgsError::MaxWriteRate)
        } else {
            None
        }
    }

    /// Checks the arguments of a write run, the shared ones first; the rate
    /// must not be negative. Sound arguments get the path separator of the
    /// platform, `separator`, behind the device path unless it is there
    /// already; faulty ones are left as they are.
    pub fn validate_args(&mut self, separator: char) -> (checked: Result<(), ArgsError>)
        ensures
            match checked {
                Ok(()) => {
                    &&& old(self).fault() is None
                    &&& final(self).common.dev_path@ == with_separator(
                        old(self).common.dev_path@,
                        separator,
                    )
                },
                Err(fault) => {
                    &&& old(self).fault() == Some(fault)
                    &&& final(self).common.dev_path@ == old(self).common.dev_path@
                },
            },
            final(self).common.start_at == old(self).common.start_at,
            final(self).common.end_at == old(self).common.end_at,
            final(self).common.show_progress == old(self).common.show_progress,
            final(self).max_write_rate == old(self).max_write_rate,
    {
        match self.common.validate_args() {
            Err(fault) => {
                return Err(fault);
            },
            Ok(()) => {},
        }
        if self.max_write_rate < 0 {
            return Err(ArgsError::MaxWriteRate);
        }
        ensure_separator(&mut self.common.dev_path, separator);
        Ok(())
    }
}

impl ReadArgs {
    /// The first fault of the arguments, if they have one.
    pub open spec fn fault(&self) -> Option<ArgsError> {
        let common = common_fault(
            self.common.start_at as int,
            self.common.end_at as int,
            self.common.dev_path@,
        );
        if common is Some {
            common
        } else if self.max_read_rate < 0 {
            Some(ArgsError::MaxReadRate)
        } else {
            None
        }
    }

    /// Whether the device path names one test file.
    pub open spec fn names_one_file(&self) -> bool {
        let path = self.common.dev_path@;
        path.len() >= 4 && path.subrange(path.len() - 4, path.len() as int) == h2w_suffix()
    }

    /// Checks the arguments of a read run, the shared ones first; the rate
    /// must not be negative. Where the device path of sound arguments ends in
    /// `.h2w`, that single file is to be read, and the path stays as it is;
    /// else the path gets the path separator of the platform, `separator`,
    /// behind it unless it is there already. Faulty arguments are left as
    /// they are.
    pub fn validate_args(&mut self, separator: char) -> (checked: Result<(), ArgsError>)
        ensures
            match checked {
                Ok(()) => {
                    &&& old(self).fault() is None
                    &&& final(self).read_single_file == (old(self).read_single_file || old(
                        self,
                    ).names_one_file())
                    &&& final(self).common.dev_path@ == if old(self).names_one_file() {
                        old(self).common.dev_path@
                    } else {
                        with_separator(old(self).common.dev_path@, separator)
                    }
                },
                Err(fault) => {
                    &&& old(self).fault() == Some(fault)
                    &&& final(self).read_single_file == old(self).read_single_file
                    &&& final(self).common.dev_path@ == old(self).common.dev_path@
                },
            },
            final(self).common.start_at == old(self).common.start_at,
            final(self).common.end_at == old(self).common.end_at,
            final(self).common.show_progress == old(self).common.show_progress,
            final(self).max_read_rate == old(self).max_read_rate,
    {
        match self.common.validate_args() {
            Err(fault) => {
                return Err(fault);
            },
            Ok(()) => {},
        }
        if self.max_read_rate < 0 {
            return Err(ArgsError::MaxReadRate);
        }
        if has_h2w_suffix(self.common.dev_path.as_str()) {
            self.read_single_file = true;
            return Ok(());
        }
        ensure_separator(&mut self.common.dev_path, separator);
        Ok(())
    }
}

} // verus!
