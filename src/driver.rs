use vstd::prelude::*;
use vstd::string::StringSliceAdditionalSpecFns;

verus! {

/// A place where a file's language is looked for, in the order tried.
#[derive(Clone, Copy, Debug, PartialEq, Eq, Structural)]
pub enum LanguageSource {
    /// The scope named on the command line.
    Scope,
    /// A language whose file types match the file's name.
    FileName,
    /// The first language found in the current directory.
    CurrentDirectory,
}

/// Where the resolution of a file's language stands.
#[derive(Clone, Copy, Debug, PartialEq, Eq, Structural)]
pub enum Resolution {
    /// Look the language up in this place next.
    Look(LanguageSource),
    /// Use the language that this place gave.
    Found(LanguageSource),
    /// The scope named on the command line is unknown: the whole run stops.
    UnknownScope,
    /// No place gave a language: this file fails, the others go on.
    NotFound,
}

/// Where the resolution starts.
pub open spec fn start_spec(scope_requested: bool) -> Resolution {
    if scope_requested {
        Resolution::Look(LanguageSource::Scope)
    } else {
        Resolution::Look(LanguageSource::FileName)
    }
}

/// Where the resolution goes once a lookup in `source` has, or has not,
/// given a language. A named scope is never passed over for the other places.
pub open spec fn step_spec(source: LanguageSource, found: bool) -> Resolution {
    if found {
        Resolution::Found(source)
    } else {
        match source {
            LanguageSource::Scope => Resolution::UnknownScope,
            LanguageSource::FileName => Resolution::Look(LanguageSource::CurrentDirectory),
            LanguageSource::CurrentDirectory => Resolution::NotFound,
        }
    }
}

/// The end of the resolution, given what each place holds: the first place
/// that is tried and gives a language wins.
pub open spec fn resolved(
    scope_requested: bool,
    by_scope: bool,
    by_file_name: bool,
    by_current_directory: bool,
) -> Resolution {
    if scope_requested {
        if by_scope {
            Resolution::Found(LanguageSource::Scope)
        } else {
            Resolution::UnknownScope
        }
    } else if by_file_name {
        Resolution::Found(LanguageSource::FileName)
    } else if by_current_directory {
        Resolution::Found(LanguageSource::CurrentDirectory)
    } else {
        Resolution::NotFound
    }
}

/// Whether each place holds a language, read at the place that a lookup
/// names.
pub open spec fn holds(
    source: LanguageSource,
    by_scope: bool,
    by_file_name: bool,
    by_current_directory: bool,
) -> bool {
    match source {
        LanguageSource::Scope => by_scope,
        LanguageSource::FileName => by_file_name,
        LanguageSource::CurrentDirectory => by_current_directory,
    }
}

/// The first lookup to make for a file.
pub fn start_resolution(scope_requested: bool) -> (r: Resolution)
    ensures
        r == start_spec(scope_requested),
{
    if scope_requested {
        Resolution::Look(LanguageSource::Scope)
    } else {
        Resolution::Look(LanguageSource::FileName)
    }
}

/// The next state once the lookup in `source` is done.
pub fn resolution_step(source: LanguageSource, found: bool) -> (r: Resolution)
    ensures
        r == step_spec(source, found),
{
    if found {
        Resolution::Found(source)
    } else {
        match source {
            LanguageSource::Scope => Resolution::UnknownScope,
            LanguageSource::FileName => Resolution::Look(LanguageSource::CurrentDirectory),
            LanguageSource::CurrentDirectory => Resolution::NotFound,
        }
    }
}

/// Driving the steps from the start, each lookup answered by what its place
/// holds, ends within three lookups, where `resolved` says: an explicit scope
/// comes first, then the file's name, then the current directory.
pub proof fn lemma_resolution_order(
    scope_requested: bool,
    by_scope: bool,
    by_file_name: bool,
    by_current_directory: bool,
)
    ensures
        ({
            let r0 = start_spec(scope_requested);
            let r1 = match r0 {
                Resolution::Look(s) => step_spec(
                    s,
                    holds(s, by_scope, by_file_name, by_current_directory),
                ),
                _ => r0,
            };
            let r2 = match r1 {
                Resolution::Look(s) => step_spec(
                    s,
                    holds(s, by_scope, by_file_name, by_current_directory),
                ),
                _ => r1,
            };
            &&& !(r2 is Look)
            &&& r2 == resolved(scope_requested, by_scope, by_file_name, by_current_directory)
        }),
{
}

/// How a parse is bounded: whether the cancellation flag is handed to the
/// engine, and the timeout, if any, in microseconds.
#[derive(Clone, Copy, Debug, PartialEq, Eq, Structural)]
pub struct ParseBound {
    pub cancellation: bool,
    pub timeout_micros: Option<u64>,
}

/// The bound of a parse: the flag is attached only where cancellation was
/// allowed, and a timeout of zero means no timeout.
pub fn parse_bound(allow_cancellation: bool, timeout_micros: u64) -> (r: ParseBound)
    ensures
        r.cancellation == allow_cancellation,
        r.timeout_micros == (if timeout_micros == 0 {
            None::<u64>
        } else {
            Some(timeout_micros)
        }),
{
    let timeout = if timeout_micros == 0 {
        None
    } else {
        Some(timeout_micros)
    };
    ParseBound { cancellation: allow_cancellation, timeout_micros: timeout }
}

/// What came of one file of a batch.
#[derive(Clone, Copy, Debug, PartialEq, Eq, Structural)]
pub enum FileOutcome {
    /// The file was parsed; `successful` is false where the tree held errors
    /// or the parse was cancelled or timed out.
    Parsed { successful: bool },
    /// No language was found for the file.
    NoLanguage,
}

/// Whether an outcome counts against the batch.
pub open spec fn is_failure(o: FileOutcome) -> bool {
    match o {
        FileOutcome::Parsed { successful } => !successful,
        FileOutcome::NoLanguage => true,
    }
}

/// Whether any file of the batch failed.
pub fn batch_had_error(outcomes: &[FileOutcome]) -> (r: bool)
    ensures
        r == exists|i: int| 0 <= i < outcomes@.len() && #[trigger] is_failure(outcomes@[i]),
{
    let mut k: usize = 0;
    while k < outcomes.len()
        invariant
            0 <= k <= outcomes@.len(),
            forall|i: int| 0 <= i < k ==> !#[trigger] is_failure(outcomes@[i]),
        decreases outcomes@.len() - k,
    {
        let failed = match outcomes[k] {
            FileOutcome::Parsed { successful } => !successful,
            FileOutcome::NoLanguage => true,
        };
        if failed {
            assert(is_failure(outcomes@[k as int]));
            return true;
        }
        k = k + 1;
    }
    false
}

/// The process exit code of a batch: zero where every file succeeded, one
/// otherwise.
pub fn batch_exit_code(outcomes: &[FileOutcome]) -> (r: i32)
    ensures
        r == 0 <==> forall|i: int| 0 <= i < outcomes@.len() ==> !#[trigger] is_failure(outcomes@[i]),
        r == 0 || r == 1,
{
    if batch_had_error(outcomes) {
        1
    } else {
        0
    }
}

/// An error that stops the whole run.
#[derive(Clone, Copy, Debug, PartialEq, Eq, Structural)]
pub enum DriverError {
    /// The timeout given is not a decimal number that fits in 64 bits.
    MalformedTimeout,
}

pub open spec fn is_digit(b: u8) -> bool {
    48 <= b <= 57
}

pub open spec fn all_digits(s: Seq<u8>) -> bool {
    forall|i: int| 0 <= i < s.len() ==> #[trigger] is_digit(s[i])
}

/// The number that a string of decimal digits writes.
pub open spec fn digits_value(s: Seq<u8>) -> nat
    decreases s.len(),
{
    if s.len() == 0 {
        0
    } else {
        digits_value(s.drop_last()) * 10 + (s.last() - 48) as nat
    }
}

/// The digits of a number, without the one leading `+` that it may carry.
pub open spec fn unsigned_digits(s: Seq<u8>) -> Seq<u8> {
    if s.len() > 0 && s[0] == 43 {
        s.drop_first()
    } else {
        s
    }
}

/// The number that a timeout argument writes in decimal, if it writes one
/// that fits in 64 bits.
pub open spec fn timeout_value(s: Seq<u8>) -> Option<u64> {
    let d = unsigned_digits(s);
    if d.len() > 0 && all_digits(d) && digits_value(d) <= u64::MAX {
        Some(digits_value(d) as u64)
    } else {
        None
    }
}

/// More digits never write a smaller number.
proof fn lemma_digits_value_prefix(s: Seq<u8>, k: int)
    requires
        0 <= k <= s.len(),
        all_digits(s),
    ensures
        digits_value(s.take(k)) <= digits_value(s),
    decreases s.len(),
{
    if k < s.len() {
        assert(s.drop_last().take(k) =~= s.take(k));
        lemma_digits_value_prefix(s.drop_last(), k);
        assert(is_digit(s[s.len() - 1]));
    } else {
        assert(s.take(k) =~= s);
    }
}

/// Reads the timeout argument as a decimal number of microseconds.
pub fn parse_timeout(text: &str) -> (r: Result<u64, DriverError>)
    ensures
        r == (match timeout_value(text.spec_bytes()) {
            Some(v) => Ok::<u64, DriverError>(v),
            None => Err(DriverError::MalformedTimeout),
        }),
{
    let b = text.as_bytes();
    let ghost d = unsigned_digits(b@);
    let start: usize = if b.len() > 0 && b[0] == 43 {
        1
    } else {
        0
    };
    assert(d =~= b@.subrange(start as int, b@.len() as int));
    if start == b.len() {
        return Err(DriverError::MalformedTimeout);
    }
    let mut v: u64 = 0;
    let mut i: usize = start;
    while i < b.len()
        invariant
            start <= i <= b@.len(),
            d == b@.subrange(start as int, b@.len() as int),
            d == unsigned_digits(b@),
            b@ == text.spec_bytes(),
            all_digits(b@.subrange(start as int, i as int)),
            v as nat == digits_value(b@.subrange(start as int, i as int)),
        decreases b@.len() - i,
    {
        let ghost prefix = b@.subrange(start as int, i as int + 1);
        assert(prefix.drop_last() =~= b@.subrange(start as int, i as int));
        assert(prefix =~= d.take(i - start + 1));
        let c = b[i];
        if c < 48 || c > 57 {
            assert(d[i - start] == c);
            assert(!is_digit(d[i - start]));

            return Err(DriverError::MalformedTimeout);
        }
        let digit = (c - 48) as u64;
        if v > (u64::MAX - digit) / 10 {
            proof {
                assert(v * 10 + digit > u64::MAX) by (nonlinear_arith)
                    requires
                        v > (u64::MAX - digit) / 10,
                        digit <= 9,
                ;
                assert(prefix.last() == c);
                assert(digits_value(prefix) > u64::MAX);
                if all_digits(d) {
                    lemma_digits_value_prefix(d, i - start + 1);
                }
            }
            return Err(DriverError::MalformedTimeout);
        }
        v = v * 10 + digit;
        i = i + 1;
    }
    assert(b@.subrange(start as int, i as int) =~= d);
    Ok(v)
}

} // verus!
