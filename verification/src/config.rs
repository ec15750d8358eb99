//! The one-shot configuration guard.
//!
//! The native engine's initialization routine is non-reentrant: invoking it a
//! second time in one process crashes, whatever the first invocation's
//! outcome. [`GlobalState`] records whether configuration has been attempted,
//! and [`read_file`] is the only operation that sets it. Callers hold one
//! [`GlobalState`] per process behind a process-wide lock and perform the
//! file-existence check and the native read at their edge, feeding the
//! outcomes in as plain values; everything that can be decided from those
//! values is decided — and proved — here.

use crate::error::Error;
use crate::macro_context::{defines, strip_leading_spaces, MacroContext};
use crate::macro_context::{is_space, macro_body, macro_name, space_run_len, spec_malformed, token_len};
use vstd::prelude::*;

verus! {

/// Whether a byte sequence holds an interior zero byte, which no native
/// filesystem path can carry.
pub open spec fn has_nul(bytes: Seq<u8>) -> bool {
    exists|i: int| 0 <= i < bytes.len() && bytes[i] == 0u8
}

/// The view of an optional borrowed byte path.
pub open spec fn opt_bytes(path: Option<&Vec<u8>>) -> Option<Seq<u8>> {
    match path {
        Some(v) => Some(v@),
        None => None,
    }
}

/// The error, if any, that rejects a configuration attempt before the native
/// engine is ever reached: the guard first, then the path checks.
pub open spec fn validation_error(
    configured: bool,
    path: Option<Seq<u8>>,
    path_exists: bool,
) -> Option<Error> {
    if configured {
        Some(Error::AlreadyConfigured)
    } else {
        match path {
            Some(bytes) => if !path_exists {
                Some(Error::FileNotFound)
            } else if has_nul(bytes) {
                Some(Error::InvalidPath)
            } else {
                None
            },
            None => None,
        }
    }
}

/// What a whole configuration attempt returns, given the guard state, the
/// path checks, and the native read's return code (consulted only when
/// validation passes; zero means success).
pub open spec fn read_file_result(
    configured: bool,
    path: Option<Seq<u8>>,
    path_exists: bool,
    native_rc: i32,
) -> Result<(), Error> {
    match validation_error(configured, path, path_exists) {
        Some(e) => Err(e),
        None => if native_rc == 0 {
            Ok(())
        } else {
            Err(Error::ReadFailed { path_given: path is Some })
        },
    }
}

/// The process-wide record of whether one-time initialization has been
/// attempted.
///
/// The field is private on purpose: the only way a value of this type ever
/// changes is through [`begin_configure`] (or [`read_file`], which calls it),
/// and neither ever clears the flag — once configured, a process stays
/// configured.
pub struct GlobalState {
    configured: bool,
}

impl GlobalState {
    /// Whether one-time initialization has been attempted.
    pub closed spec fn configured(&self) -> bool {
        self.configured
    }

    /// A fresh, unconfigured state; a process creates exactly one, before any
    /// configuration attempt.
    pub fn new() -> (s: Self)
        ensures
            !s.configured(),
    {
        GlobalState { configured: false }
    }

    /// Whether one-time initialization has been attempted, as an executable
    /// query for callers that must test the guard before acting.
    pub fn is_configured(&self) -> (b: bool)
        ensures
            b == self.configured(),
    {
        self.configured
    }
}

/// Whether a byte vector holds an interior zero byte.
fn contains_nul(bytes: &Vec<u8>) -> (b: bool)
    ensures
        b == has_nul(bytes@),
{
    let mut i: usize = 0;
    while i < bytes.len()
        invariant
            0 <= i <= bytes@.len(),
            forall|k: int| 0 <= k < i ==> bytes@[k] != 0u8,
        decreases bytes@.len() - i,
    {
        if bytes[i] == 0u8 {
            assert(has_nul(bytes@));
            return true;
        }
        i = i + 1;
    }
    false
}

/// The first, decidable half of a configuration attempt: the guard and the
/// path checks, and — when they pass — the irreversible transition to
/// `configured`.
///
/// The flag is set *before* the caller makes the native read, so a second,
/// concurrent attempt serialized behind the same lock can never reach the
/// non-reentrant native routine while the first is in flight. On a
/// validation error nothing changes and the caller must not touch the native
/// engine.
pub fn begin_configure(
    state: &mut GlobalState,
    path: Option<&Vec<u8>>,
    path_exists: bool,
) -> (r: Result<(), Error>)
    ensures
        match validation_error(old(state).configured(), opt_bytes(path), path_exists) {
            Some(e) => r == Err::<(), Error>(e) && final(state).configured() == old(
                state,
            ).configured(),
            None => r == Ok::<(), Error>(()) && final(state).configured(),
        },
        old(state).configured() ==> final(state).configured(),
{
    if state.configured {
        return Err(Error::AlreadyConfigured);
    }
    match path {
        Some(bytes) => {
            if !path_exists {
                return Err(Error::FileNotFound);
            }
            if contains_nul(bytes) {
                return Err(Error::InvalidPath);
            }
        },
        None => {},
    }
    state.configured = true;
    Ok(())
}

/// The second half of a configuration attempt: translating the native read's
/// return code (zero on success) into the typed result. The guard stays set
/// whatever the code says — a failed native read cannot be rolled back, so a
/// failed attempt is never retried.
pub fn finish_configure(native_rc: i32, path_given: bool) -> (r: Result<(), Error>)
    ensures
        native_rc == 0 ==> r == Ok::<(), Error>(()),
        native_rc != 0 ==> r == Err::<(), Error>(Error::ReadFailed { path_given }),
{
    if native_rc == 0 {
        Ok(())
    } else {
        Err(Error::ReadFailed { path_given })
    }
}

/// One whole serialized configuration attempt.
///
/// `path` is the configuration file as bytes, if one was named;
/// `path_exists` is the caller's existence check of that file; `native_rc`
/// is what the native read returned — consulted only when the guard and the
/// path checks pass, since a caller split across the native call uses
/// [`begin_configure`] and [`finish_configure`] directly.
///
/// The contract pins every case: the guard rejects a second attempt with
/// `AlreadyConfigured`; a named but missing file gives `FileNotFound`; a path
/// with an interior zero byte gives `InvalidPath`; otherwise the attempt
/// reaches the native engine and `configured` becomes true even when the
/// native read fails with `ReadFailed`.
pub fn read_file(
    state: &mut GlobalState,
    path: Option<&Vec<u8>>,
    path_exists: bool,
    native_rc: i32,
) -> (r: Result<(), Error>)
    ensures
        r == read_file_result(old(state).configured(), opt_bytes(path), path_exists, native_rc),
        final(state).configured() == (old(state).configured() || validation_error(
            old(state).configured(),
            opt_bytes(path),
            path_exists,
        ) is None),
{
    let path_given = path.is_some();
    match begin_configure(state, path, path_exists) {
        Ok(()) => finish_configure(native_rc, path_given),
        Err(e) => Err(e),
    }
}

/// The name of the macro that holds the database path.
pub open spec fn db_path_macro() -> Seq<char> {
    "_dbpath"@
}

/// Set the path to the global package database.
///
/// The database location is ordinary configuration data: this call is
/// exactly a `define` of the `_dbpath` macro at the base level 0, through
/// the same mechanism as any other macro. It always succeeds; an existing
/// `_dbpath` definition at a strictly lower (higher-priority) level is left
/// standing, and otherwise the macro's body becomes `path` (with any leading
/// whitespace folded into the definition's separator).
pub fn set_db_path(ctx: &mut MacroContext, path: &str) -> (r: Result<(), Error>)
    ensures
        r == Ok::<(), Error>(()),
        match old(ctx).lookup(db_path_macro()) {
            Some(existing) => if existing.level < 0 {
                *final(ctx) == *old(ctx)
            } else {
                defines(*old(ctx), *final(ctx), db_path_macro(), strip_leading_spaces(path@), 0)
            },
            None => defines(*old(ctx), *final(ctx), db_path_macro(), strip_leading_spaces(path@), 0),
        },
{
    let mut text = String::from_str("_dbpath ");
    text.append(path);
    proof {
        reveal_strlit("_dbpath ");
        reveal_strlit("_dbpath");
        let t = text@;
        let lit = "_dbpath "@;
        assert(t == lit + path@);
        assert(lit.len() == 8);
        assert forall|k: int| 0 <= k < 7 implies !is_space(t[k]) by {
            assert(t[k] == lit[k]);
            assert(!is_space(lit[0]) && !is_space(lit[1]) && !is_space(lit[2]) && !is_space(
                lit[3],
            ) && !is_space(lit[4]) && !is_space(lit[5]) && !is_space(lit[6]));
        }
        assert(t[7] == lit[7]);
        assert(is_space(t[7]));
        crate::macro_context::lemma_token_len_is_first_space(t, 7);
        assert(token_len(t) == 7);
        assert(!spec_malformed(t));
        assert(lit[0] == "_dbpath"@[0] && lit[1] == "_dbpath"@[1] && lit[2] == "_dbpath"@[2]
            && lit[3] == "_dbpath"@[3] && lit[4] == "_dbpath"@[4] && lit[5] == "_dbpath"@[5]
            && lit[6] == "_dbpath"@[6]);
        assert(macro_name(t) =~= db_path_macro());
        let u = t.skip(7);
        assert(u[0] == t[7]);
        assert(u.drop_first() =~= path@);
        assert(space_run_len(u) == 1 + space_run_len(path@));
        assert(macro_body(t) == t.skip(8 + space_run_len(path@) as int));
        crate::macro_context::lemma_space_run_len_le(path@);
        let srl = space_run_len(path@) as int;
        assert forall|m: int|
            0 <= m < macro_body(t).len() implies macro_body(t)[m] == strip_leading_spaces(
            path@,
        )[m] by {
            assert(macro_body(t)[m] == t[8 + srl + m]);
            assert(t[8 + srl + m] == path@[srl + m]);
            assert(strip_leading_spaces(path@)[m] == path@[srl + m]);
        }
        assert(macro_body(t) =~= strip_leading_spaces(path@));
    }
    ctx.define(text.as_str(), 0)
}

/// One configuration attempt, as the lock serializes it: the path named (if
/// any), whether that file existed, and what the native read would return.
pub ghost struct Attempt {
    /// The configuration file as bytes, if one was named.
    pub path: Option<Seq<u8>>,
    /// Whether the named file existed at the time of the attempt.
    pub path_exists: bool,
    /// The native read's return code, zero on success.
    pub native_rc: i32,
}

/// Whether an attempt would succeed on an unconfigured process: its path
/// checks pass and the native read reports success.
pub open spec fn attempt_valid(a: Attempt) -> bool {
    validation_error(false, a.path, a.path_exists) is None && a.native_rc == 0
}

/// What one attempt returns against the given guard state.
pub open spec fn attempt_result(configured: bool, a: Attempt) -> Result<(), Error> {
    read_file_result(configured, a.path, a.path_exists, a.native_rc)
}

/// The guard state after one attempt: set as soon as validation passes,
/// whatever the native read then says.
pub open spec fn configured_after(configured: bool, a: Attempt) -> bool {
    configured || validation_error(configured, a.path, a.path_exists) is None
}

/// The results of a lock-ordered sequence of attempts, first to last.
pub open spec fn run_results(configured: bool, attempts: Seq<Attempt>) -> Seq<Result<(), Error>>
    decreases attempts.len(),
{
    if attempts.len() == 0 {
        Seq::empty()
    } else {
        seq![attempt_result(configured, attempts[0])] + run_results(
            configured_after(configured, attempts[0]),
            attempts.drop_first(),
        )
    }
}

/// How many attempts of a run succeeded.
pub open spec fn success_count(results: Seq<Result<(), Error>>) -> nat
    decreases results.len(),
{
    if results.len() == 0 {
        0
    } else {
        (if results[0] is Ok {
            1nat
        } else {
            0nat
        }) + success_count(results.drop_first())
    }
}

/// A run yields one result per attempt.
pub proof fn lemma_run_results_len(configured: bool, attempts: Seq<Attempt>)
    ensures
        run_results(configured, attempts).len() == attempts.len(),
    decreases attempts.len(),
{
    if attempts.len() > 0 {
        lemma_run_results_len(configured_after(configured, attempts[0]), attempts.drop_first());
    }
}

/// On a process that is already configured, every attempt of a run fails
/// with `AlreadyConfigured`: the guard never resets.
pub proof fn lemma_configured_rejects_every_attempt(attempts: Seq<Attempt>)
    ensures
        run_results(true, attempts).len() == attempts.len(),
        forall|i: int|
            0 <= i < attempts.len() ==> run_results(true, attempts)[i] == Err::<(), Error>(
                Error::AlreadyConfigured,
            ),
    decreases attempts.len(),
{
    lemma_run_results_len(true, attempts);
    if attempts.len() > 0 {
        assert(configured_after(true, attempts[0]));
        lemma_configured_rejects_every_attempt(attempts.drop_first());
        let rest = run_results(true, attempts.drop_first());
        assert forall|i: int|
            0 <= i < attempts.len() implies run_results(true, attempts)[i] == Err::<(), Error>(
            Error::AlreadyConfigured,
        ) by {
            if i > 0 {
                assert(run_results(true, attempts)[i] == rest[i - 1]);
            }
        }
    }
}

/// Of all the configuration attempts a process ever makes, serialized by the
/// lock, exactly one succeeds — the first — and every other one returns
/// `AlreadyConfigured`, provided each attempt on its own is acceptable (its
/// path exists and is representable, and the native read succeeds).
pub proof fn lemma_exactly_one_configuration(attempts: Seq<Attempt>)
    requires
        attempts.len() > 0,
        forall|i: int| 0 <= i < attempts.len() ==> attempt_valid(#[trigger] attempts[i]),
    ensures
        run_results(false, attempts).len() == attempts.len(),
        run_results(false, attempts)[0] == Ok::<(), Error>(()),
        forall|i: int|
            1 <= i < attempts.len() ==> run_results(false, attempts)[i] == Err::<(), Error>(
                Error::AlreadyConfigured,
            ),
        success_count(run_results(false, attempts)) == 1,
{
    lemma_run_results_len(false, attempts);
    assert(attempt_valid(attempts[0]));
    assert(configured_after(false, attempts[0]));
    lemma_configured_rejects_every_attempt(attempts.drop_first());
    let rest = run_results(true, attempts.drop_first());
    assert forall|i: int|
        1 <= i < attempts.len() implies run_results(false, attempts)[i] == Err::<(), Error>(
        Error::AlreadyConfigured,
    ) by {
        assert(run_results(false, attempts)[i] == rest[i - 1]);
    }
    lemma_all_rejected_counts_none(rest);
    assert(run_results(false, attempts).drop_first() =~= rest);
}

/// A run in which every result is an error has no successes.
proof fn lemma_all_rejected_counts_none(results: Seq<Result<(), Error>>)
    requires
        forall|i: int| 0 <= i < results.len() ==> !(#[trigger] results[i] is Ok),
    ensures
        success_count(results) == 0,
    decreases results.len(),
{
    if results.len() > 0 {
        assert(!(results[0] is Ok));
        assert forall|i: int|
            0 <= i < results.drop_first().len() implies !(#[trigger] results.drop_first()[i]
            is Ok) by {
            assert(results.drop_first()[i] == results[i + 1]);
        }
        lemma_all_rejected_counts_none(results.drop_first());
    }
}

/// Whatever the attempts are — valid or not — a process sees at most one
/// successful configuration, and a configured process sees none.
pub proof fn lemma_at_most_one_success(configured: bool, attempts: Seq<Attempt>)
    ensures
        success_count(run_results(configured, attempts)) <= if configured {
            0int
        } else {
            1int
        },
    decreases attempts.len(),
{
    if attempts.len() > 0 {
        let first = attempt_result(configured, attempts[0]);
        let after = configured_after(configured, attempts[0]);
        lemma_at_most_one_success(after, attempts.drop_first());
        assert(run_results(configured, attempts).drop_first() =~= run_results(
            after,
            attempts.drop_first(),
        ));
        if first is Ok {
            assert(after);
        }
    }
}

} // verus!
