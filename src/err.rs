use vstd::prelude::*;
use vstd::string::StringExecFns;

verus! {

#[verifier::external_type_specification]
#[verifier::external_body]
pub struct ExIoError(std::io::Error);

/// Errors that can stop a profiling run.
#[derive(Debug)]
pub enum ProfError {
    /// A line that should have been a row of counts was not one.
    RegexError,
    InvalidProfiler,
    InvalidBinary,
    InvalidNum,
    InvalidSortMetric,
    /// Wraps a std::io::Error
    IOError(std::io::Error),
    /// A row had another number of counts than its report's kind has columns.
    MisalignedData,
    CompilationError(String),
    TomlError,
}

pub const MSG_REGEX: &'static str = "\x1b[1;31merror: \x1b[0mregex error -- please file a bug. In bug report, please include the original output file from profiler, e.g. from valgrind --tool=cachegrind --cachegrind-out-file=cachegrind.txt";

pub const MSG_PROFILER: &'static str = "\x1b[1;31merror: \x1b[0minvalid profiler. cargo profiler currently supports callgrind and cachegrind.";

pub const MSG_BINARY: &'static str = "\x1b[1;31merror: \x1b[0minvalid binary. make sure binary exists.";

pub const MSG_NUM: &'static str = "\x1b[1;31merror: \x1b[0minvalid number. make sure number is a positive integer.";

pub const MSG_SORT: &'static str = "\x1b[1;31merror: \x1b[0minvalid metric to sort on. available cachegrind metrics are \nir, i1mr, ilmr, dr, d1mr, dlmr, dw, d1mw, and dlmw. Check README for details on these metrics.";

pub const MSG_IO_HEAD: &'static str = "\x1b[1;31merror: \x1b[0mio error: ";

pub const MSG_IO_TAIL: &'static str = " -- please file a bug.";

pub const MSG_MISALIGNED: &'static str = "\x1b[1;31merror: \x1b[0mmisaligned data arrays due to regex error -- please file a bug.";

pub const MSG_COMPILE_HEAD: &'static str = "\x1b[1;31merror: \x1b[0mfailed to compile ";

pub const MSG_COMPILE_TAIL: &'static str = ". Run cargo build to get compilation error.";

pub const MSG_TOML: &'static str = "\x1b[1;31merror: \x1b[0merror in parsing Cargo.toml to derive package name. Make sure package name is directly under [package] tag.";

/// Relies on `std::error::Error::description` of `std::io::Error`: a short
/// text for the error; nothing is stated of it.
#[verifier::external_body]
#[allow(deprecated)]
fn io_error_description(e: &std::io::Error) -> &str {
    std::error::Error::description(e)
}

impl ProfError {
    /// The message shown to the user, with its remedy.
    pub fn message(&self) -> (r: String)
        ensures
            match self {
                ProfError::RegexError => r@ == MSG_REGEX@,
                ProfError::InvalidProfiler => r@ == MSG_PROFILER@,
                ProfError::InvalidBinary => r@ == MSG_BINARY@,
                ProfError::InvalidNum => r@ == MSG_NUM@,
                ProfError::InvalidSortMetric => r@ == MSG_SORT@,
                ProfError::IOError(_) => exists|t: Seq<char>| r@ == MSG_IO_HEAD@ + t + MSG_IO_TAIL@,
                ProfError::MisalignedData => r@ == MSG_MISALIGNED@,
                ProfError::CompilationError(s) => r@ == MSG_COMPILE_HEAD@ + s@ + MSG_COMPILE_TAIL@,
                ProfError::TomlError => r@ == MSG_TOML@,
            },
    {
        match self {
            ProfError::RegexError => String::from_str(MSG_REGEX),
            ProfError::InvalidProfiler => String::from_str(MSG_PROFILER),
            ProfError::InvalidBinary => String::from_str(MSG_BINARY),
            ProfError::InvalidNum => String::from_str(MSG_NUM),
            ProfError::InvalidSortMetric => String::from_str(MSG_SORT),
            ProfError::IOError(e) => {
                let t = e.to_string();
                let r = String::from_str(MSG_IO_HEAD).concat(t.as_str()).concat(MSG_IO_TAIL);
                assert(r@ == MSG_IO_HEAD@ + t@ + MSG_IO_TAIL@);
                r
            },
            ProfError::MisalignedData => String::from_str(MSG_MISALIGNED),
            ProfError::CompilationError(s) => String::from_str(MSG_COMPILE_HEAD).concat(
                s.as_str(),
            ).concat(MSG_COMPILE_TAIL),
            ProfError::TomlError => String::from_str(MSG_TOML),
        }
    }

    /// A short description of the error.
    pub fn description(&self) -> (r: &str)
        ensures
            match self {
                ProfError::RegexError => r@ == "Regex error. file bug."@,
                ProfError::InvalidProfiler => r@ == "Invalid Profiler."@,
                ProfError::InvalidBinary => r@ == "Invalid Binary."@,
                ProfError::InvalidNum => r@ == "Invalid number."@,
                ProfError::InvalidSortMetric => r@ == "Invalid sort metric."@,
                ProfError::MisalignedData => r@ == "Misaligned Data. File bug."@,
                ProfError::CompilationError(_) => r@
                    == "Failed to compile. Run cargo build to get compilation error."@,
                ProfError::TomlError => r@ == "Error in parsing Cargo.toml."@,
                ProfError::IOError(_) => true,
            },
    {
        match self {
            ProfError::RegexError => "Regex error. file bug.",
            ProfError::InvalidProfiler => "Invalid Profiler.",
            ProfError::InvalidBinary => "Invalid Binary.",
            ProfError::InvalidNum => "Invalid number.",
            ProfError::InvalidSortMetric => "Invalid sort metric.",
            ProfError::MisalignedData => "Misaligned Data. File bug.",
            ProfError::CompilationError(_) => {
                "Failed to compile. Run cargo build to get compilation error."
            },
            ProfError::TomlError => "Error in parsing Cargo.toml.",
            ProfError::IOError(e) => io_error_description(e),
        }
    }

    /// The underlying error: the wrapped I/O error, for that kind alone.
    pub fn cause(&self) -> (r: Option<&std::io::Error>)
        ensures
            match self {
                ProfError::IOError(e) => r == Some(e),
                _ => r is None,
            },
    {
        match self {
            ProfError::IOError(e) => Some(e),
            _ => None,
        }
    }
}

impl From<std::io::Error> for ProfError {
    fn from(err: std::io::Error) -> (r: ProfError)
        ensures
            r == ProfError::IOError(err),
    {
        ProfError::IOError(err)
    }
}

impl vstd::std_specs::convert::FromSpecImpl<std::io::Error> for ProfError {
    open spec fn obeys_from_spec() -> bool {
        true
    }

    open spec fn from_spec(v: std::io::Error) -> ProfError {
        ProfError::IOError(v)
    }
}

} // verus!
