//! The macro (configuration variable) context.
//!
//! Macros are the native engine's configuration system: named expansion
//! templates with an integer precedence level. This module holds the store
//! itself — which definition wins under each name — as verified logic.
//! Expansion of a body against the table (including detection of undefined
//! names and cycles) is delegated to the native engine, as is making a
//! definition visible engine-wide; callers mirror every accepted definition
//! into the native table at their edge.
//!
//! Precedence: a lower numeric level means higher priority (level 0 is the
//! global base scope). A new definition for an existing name wins exactly
//! when its level is less than or equal to the existing one; a definition at
//! a strictly lower (more authoritative) level is never displaced by a
//! higher-numbered one.

use crate::error::Error;
use vstd::prelude::*;

verus! {

/// Whether a character separates the name token from the body of a macro
/// definition.
pub open spec fn is_space(c: char) -> bool {
    c == ' ' || c == '\t' || c == '\n' || c == '\r'
}

/// The length of the leading run of non-whitespace characters.
pub open spec fn token_len(s: Seq<char>) -> nat
    decreases s.len(),
{
    if s.len() == 0 {
        0
    } else if is_space(s[0]) {
        0
    } else {
        1 + token_len(s.drop_first())
    }
}

/// The length of the leading run of whitespace characters.
pub open spec fn space_run_len(s: Seq<char>) -> nat
    decreases s.len(),
{
    if s.len() == 0 {
        0
    } else if !is_space(s[0]) {
        0
    } else {
        1 + space_run_len(s.drop_first())
    }
}

/// The name token of a macro definition: everything before the first
/// whitespace run.
pub open spec fn macro_name(s: Seq<char>) -> Seq<char> {
    s.take(token_len(s) as int)
}

/// The body of a macro definition: everything after the first whitespace
/// run.
pub open spec fn macro_body(s: Seq<char>) -> Seq<char> {
    let t = token_len(s) as int;
    s.skip(t + space_run_len(s.skip(t)) as int)
}

/// A definition is malformed when it has no whitespace at all (no body), or
/// when it starts with whitespace (an empty name token).
pub open spec fn spec_malformed(s: Seq<char>) -> bool {
    token_len(s) == s.len() || token_len(s) == 0
}

/// A sequence with its leading whitespace run removed.
pub open spec fn strip_leading_spaces(s: Seq<char>) -> Seq<char> {
    s.skip(space_run_len(s) as int)
}

/// One named expansion definition: the name, the template body, and the
/// precedence level it was defined at.
pub struct MacroEntry {
    /// The macro's name.
    pub name: String,
    /// The expansion template; it may reference other macro names.
    pub body: String,
    /// The precedence level; lower numbers take priority.
    pub level: i32,
}

/// The mathematical image of one definition.
pub ghost struct MacroDefView {
    /// The macro's name.
    pub name: Seq<char>,
    /// The expansion template.
    pub body: Seq<char>,
    /// The precedence level.
    pub level: int,
}

impl View for MacroEntry {
    type V = MacroDefView;

    open spec fn view(&self) -> MacroDefView {
        MacroDefView { name: self.name@, body: self.body@, level: self.level as int }
    }
}

/// The first entry under `name`, scanning from the front. The store keeps at
/// most one entry per name, and every operation preserves what this function
/// says, so it is the store's meaning.
spec fn find_entry(s: Seq<MacroDefView>, name: Seq<char>) -> Option<MacroDefView>
    decreases s.len(),
{
    if s.len() == 0 {
        None
    } else if s[0].name == name {
        Some(s[0])
    } else {
        find_entry(s.drop_first(), name)
    }
}

/// The hierarchical name-to-definition store, holding the currently winning
/// entry under each name.
pub struct MacroContext {
    entries: Vec<MacroEntry>,
}

/// `post` is `pre` with exactly the definition `(name, body, level)` put in
/// place: every other name resolves as before.
pub open spec fn defines(
    pre: MacroContext,
    post: MacroContext,
    name: Seq<char>,
    body: Seq<char>,
    level: int,
) -> bool {
    &&& post.lookup(name) == Some(MacroDefView { name, body, level })
    &&& forall|n: Seq<char>| n != name ==> post.lookup(n) == pre.lookup(n)
}

impl MacroContext {
    /// The entries as mathematical values.
    spec fn entry_views(&self) -> Seq<MacroDefView> {
        self.entries@.map_values(|e: MacroEntry| e@)
    }

    /// The winning definition under `name`, if any.
    pub closed spec fn lookup(&self, name: Seq<char>) -> Option<MacroDefView> {
        find_entry(self.entry_views(), name)
    }

    /// An empty context: no name has a definition.
    pub fn new() -> (r: Self)
        ensures
            forall|n: Seq<char>| r.lookup(n) == None::<MacroDefView>,
    {
        let r = MacroContext { entries: Vec::new() };
        proof {
            assert(r.entry_views().len() == 0);
        }
        r
    }

    /// The index of the entry under `name`, if one exists.
    fn find_index(&self, name: &String) -> (r: Option<usize>)
        ensures
            match r {
                Some(i) => i < self.entry_views().len() && self.entry_views()[i as int].name
                    == name@ && forall|k: int|
                    0 <= k < i ==> self.entry_views()[k].name != name@,
                None => forall|k: int|
                    0 <= k < self.entry_views().len() ==> self.entry_views()[k].name != name@,
            },
    {
        let mut i: usize = 0;
        while i < self.entries.len()
            invariant
                0 <= i <= self.entries@.len(),
                forall|k: int| 0 <= k < i ==> self.entry_views()[k].name != name@,
            decreases self.entries@.len() - i,
        {
            if self.entries[i].name == *name {
                return Some(i);
            }
            i = i + 1;
        }
        None
    }

    /// Register one definition.
    ///
    /// `text` must split into a name token and a body remainder at its first
    /// whitespace run; otherwise nothing changes and the result is
    /// `MalformedMacro`. An accepted definition wins over an existing entry
    /// for the same name exactly when its level is less than or equal to the
    /// existing one (lower level = higher priority); it always wins over an
    /// absent one.
    pub fn define(&mut self, text: &str, level: i32) -> (r: Result<(), Error>)
        ensures
            spec_malformed(text@) ==> r == Err::<(), Error>(Error::MalformedMacro) && *final(self)
                == *old(self),
            !spec_malformed(text@) ==> r == Ok::<(), Error>(()) && (match old(self).lookup(
                macro_name(text@),
            ) {
                Some(existing) => if existing.level < level as int {
                    *final(self) == *old(self)
                } else {
                    defines(*old(self), *final(self), macro_name(text@), macro_body(text@), level as int)
                },
                None => defines(*old(self), *final(self), macro_name(text@), macro_body(text@), level as int),
            }),
    {
        let n = text.unicode_len();
        let tok = scan_token(text);
        if tok == 0 || tok == n {
            return Err(Error::MalformedMacro);
        }
        let body_start = scan_spaces(text, tok);
        let name_str = String::from_str(text.substring_char(0, tok));
        let body_str = String::from_str(text.substring_char(body_start, n));
        proof {
            assert(name_str@ =~= macro_name(text@));
            assert(body_str@ =~= macro_body(text@));
        }
        let ghost vs0 = self.entry_views();
        match self.find_index(&name_str) {
            Some(i) => {
                proof {
                    lemma_find_entry_at(vs0, i as int);
                }
                if level <= self.entries[i].level {
                    let entry = MacroEntry { name: name_str, body: body_str, level };
                    let ghost ev = entry@;
                    proof {
                        lemma_find_entry_update(vs0, i as int, ev);
                    }
                    self.entries.set(i, entry);
                    proof {
                        assert(self.entry_views() =~= vs0.update(i as int, ev));
                    }
                }
            },
            None => {
                let entry = MacroEntry { name: name_str, body: body_str, level };
                let ghost ev = entry@;
                proof {
                    lemma_find_entry_absent(vs0, ev.name);
                    lemma_find_entry_push(vs0, ev);
                }
                self.entries.push(entry);
                proof {
                    assert(self.entry_views() =~= vs0.push(ev));
                }
            },
        }
        Ok(())
    }

    /// The body of the winning definition under `name`, if any.
    pub fn lookup_body(&self, name: &String) -> (r: Option<String>)
        ensures
            match self.lookup(name@) {
                Some(d) => r is Some && r.unwrap()@ == d.body,
                None => r is None,
            },
    {
        match self.find_index(name) {
            Some(i) => {
                proof {
                    lemma_find_entry_at(self.entry_views(), i as int);
                }
                Some(self.entries[i].body.clone())
            },
            None => {
                proof {
                    lemma_find_entry_absent(self.entry_views(), name@);
                }
                None
            },
        }
    }
}

impl Default for MacroContext {
    /// An empty context, as [`MacroContext::new`] builds it.
    fn default() -> (r: Self)
        ensures
            forall|n: Seq<char>| r.lookup(n) == None::<MacroDefView>,
    {
        MacroContext::new()
    }
}

/// The length of the leading non-whitespace token of `text`.
fn scan_token(text: &str) -> (i: usize)
    ensures
        i == token_len(text@),
        i <= text@.len(),
{
    let n = text.unicode_len();
    let mut i: usize = 0;
    while i < n
        invariant
            0 <= i <= n,
            n == text@.len(),
            forall|k: int| 0 <= k < i ==> !is_space(text@[k]),
        decreases n - i,
    {
        let c = text.get_char(i);
        if c == ' ' || c == '\t' || c == '\n' || c == '\r' {
            proof {
                lemma_token_len_is_first_space(text@, i as int);
            }
            return i;
        }
        i = i + 1;
    }
    proof {
        lemma_token_len_is_first_space(text@, n as int);
    }
    i
}

/// The index of the first non-whitespace character of `text` at or after
/// `from`.
fn scan_spaces(text: &str, from: usize) -> (j: usize)
    requires
        from <= text@.len(),
    ensures
        from <= j <= text@.len(),
        j - from == space_run_len(text@.skip(from as int)),
{
    let n = text.unicode_len();
    let mut j: usize = from;
    while j < n
        invariant
            from <= j <= n,
            n == text@.len(),
            forall|k: int| from <= k < j ==> is_space(text@[k]),
        decreases n - j,
    {
        let c = text.get_char(j);
        if !(c == ' ' || c == '\t' || c == '\n' || c == '\r') {
            proof {
                lemma_space_run_is_first_nonspace(text@, from as int, j as int);
            }
            return j;
        }
        j = j + 1;
    }
    proof {
        lemma_space_run_is_first_nonspace(text@, from as int, n as int);
    }
    j
}

/// The leading token never runs past the end.
pub proof fn lemma_token_len_le(s: Seq<char>)
    ensures
        token_len(s) <= s.len(),
    decreases s.len(),
{
    if s.len() > 0 && !is_space(s[0]) {
        lemma_token_len_le(s.drop_first());
    }
}

/// The leading whitespace run never runs past the end.
pub proof fn lemma_space_run_len_le(s: Seq<char>)
    ensures
        space_run_len(s) <= s.len(),
    decreases s.len(),
{
    if s.len() > 0 && is_space(s[0]) {
        lemma_space_run_len_le(s.drop_first());
    }
}

/// If nothing before `i` is whitespace and `i` is past the end or at a
/// whitespace character, the leading token ends exactly at `i`.
pub proof fn lemma_token_len_is_first_space(s: Seq<char>, i: int)
    requires
        0 <= i <= s.len(),
        forall|k: int| 0 <= k < i ==> !is_space(s[k]),
        i < s.len() ==> is_space(s[i]),
    ensures
        token_len(s) == i,
    decreases s.len(),
{
    if i == 0 {
    } else {
        assert(!is_space(s[0]));
        assert forall|k: int| 0 <= k < i - 1 implies !is_space(s.drop_first()[k]) by {
            assert(s.drop_first()[k] == s[k + 1]);
        }
        assert(i - 1 < s.drop_first().len() ==> is_space(s.drop_first()[i - 1]));
        lemma_token_len_is_first_space(s.drop_first(), i - 1);
    }
}

/// If everything in `[from, j)` is whitespace and `j` is past the end or at
/// a non-whitespace character, the whitespace run starting at `from` ends
/// exactly at `j`.
proof fn lemma_space_run_is_first_nonspace(s: Seq<char>, from: int, j: int)
    requires
        0 <= from <= j <= s.len(),
        forall|k: int| from <= k < j ==> is_space(s[k]),
        j < s.len() ==> !is_space(s[j]),
    ensures
        space_run_len(s.skip(from)) == j - from,
    decreases j - from,
{
    let t = s.skip(from);
    if j == from {
        if t.len() > 0 {
            assert(t[0] == s[from]);
            assert(!is_space(t[0]));
        }
    } else {
        assert(t[0] == s[from]);
        assert(is_space(t[0]));
        lemma_space_run_is_first_nonspace(s, from + 1, j);
        assert(t.drop_first() =~= s.skip(from + 1));
    }
}

/// The entry a front-to-back scan stops at is what `find_entry` returns.
proof fn lemma_find_entry_at(s: Seq<MacroDefView>, i: int)
    requires
        0 <= i < s.len(),
        forall|k: int| 0 <= k < i ==> s[k].name != s[i].name,
    ensures
        find_entry(s, s[i].name) == Some(s[i]),
    decreases s.len(),
{
    if i == 0 {
    } else {
        assert(s[0].name != s[i].name);
        assert forall|k: int| 0 <= k < i - 1 implies (#[trigger] s.drop_first()[k]).name
            != s.drop_first()[i - 1].name by {
            assert(s.drop_first()[k] == s[k + 1]);
            assert(s.drop_first()[i - 1] == s[i]);
        }
        lemma_find_entry_at(s.drop_first(), i - 1);
        assert(s.drop_first()[i - 1] == s[i]);
    }
}

/// A name no entry carries resolves to nothing.
proof fn lemma_find_entry_absent(s: Seq<MacroDefView>, name: Seq<char>)
    requires
        forall|k: int| 0 <= k < s.len() ==> s[k].name != name,
    ensures
        find_entry(s, name) == None::<MacroDefView>,
    decreases s.len(),
{
    if s.len() > 0 {
        assert forall|k: int| 0 <= k < s.drop_first().len() implies s.drop_first()[k].name
            != name by {
            assert(s.drop_first()[k] == s[k + 1]);
        }
        lemma_find_entry_absent(s.drop_first(), name);
    }
}

/// Replacing the first entry under a name changes what that name resolves to
/// and nothing else.
proof fn lemma_find_entry_update(s: Seq<MacroDefView>, i: int, e: MacroDefView)
    requires
        0 <= i < s.len(),
        forall|k: int| 0 <= k < i ==> s[k].name != s[i].name,
        e.name == s[i].name,
    ensures
        find_entry(s.update(i, e), s[i].name) == Some(e),
        forall|n: Seq<char>|
            n != s[i].name ==> find_entry(s.update(i, e), n) == find_entry(s, n),
    decreases s.len(),
{
    if i == 0 {
        assert(s.update(0, e)[0] == e);
        assert(s.update(0, e).drop_first() =~= s.drop_first());
        assert forall|n: Seq<char>|
            n != s[i].name implies find_entry(s.update(i, e), n) == find_entry(s, n) by {
            assert(find_entry(s.update(i, e), n) == find_entry(s.drop_first(), n));
            assert(find_entry(s, n) == find_entry(s.drop_first(), n));
        }
    } else {
        assert(s.update(i, e)[0] == s[0]);
        assert(s.update(i, e).drop_first() =~= s.drop_first().update(i - 1, e));
        assert forall|k: int| 0 <= k < i - 1 implies (#[trigger] s.drop_first()[k]).name
            != s.drop_first()[i - 1].name by {
            assert(s.drop_first()[k] == s[k + 1]);
            assert(s.drop_first()[i - 1] == s[i]);
        }
        assert(s.drop_first()[i - 1] == s[i]);
        lemma_find_entry_update(s.drop_first(), i - 1, e);
        assert(s[0].name != s[i].name);
        assert forall|n: Seq<char>|
            n != s[i].name implies find_entry(s.update(i, e), n) == find_entry(s, n) by {
            if s[0].name == n {
                assert(find_entry(s.update(i, e), n) == Some(s[0]));
                assert(find_entry(s, n) == Some(s[0]));
            } else {
                assert(find_entry(s.update(i, e), n) == find_entry(
                    s.drop_first().update(i - 1, e),
                    n,
                ));
                assert(find_entry(s.drop_first().update(i - 1, e), n) == find_entry(
                    s.drop_first(),
                    n,
                ));
                assert(find_entry(s, n) == find_entry(s.drop_first(), n));
            }
        }
    }
}

/// Appending an entry under a fresh name defines that name and changes
/// nothing else.
proof fn lemma_find_entry_push(s: Seq<MacroDefView>, e: MacroDefView)
    requires
        forall|k: int| 0 <= k < s.len() ==> s[k].name != e.name,
    ensures
        find_entry(s.push(e), e.name) == Some(e),
        forall|n: Seq<char>| n != e.name ==> find_entry(s.push(e), n) == find_entry(s, n),
    decreases s.len(),
{
    if s.len() == 0 {
        assert(s.push(e)[0] == e);
        assert(s.push(e).drop_first() =~= Seq::<MacroDefView>::empty());
        assert forall|n: Seq<char>|
            n != e.name implies find_entry(s.push(e), n) == find_entry(s, n) by {
            assert(find_entry(s.push(e), n) == find_entry(Seq::<MacroDefView>::empty(), n));
        }
    } else {
        assert(s.push(e)[0] == s[0]);
        assert(s.push(e).drop_first() =~= s.drop_first().push(e));
        assert forall|k: int| 0 <= k < s.drop_first().len() implies (#[trigger] s.drop_first()[
            k]).name != e.name by {
            assert(s.drop_first()[k] == s[k + 1]);
        }
        lemma_find_entry_push(s.drop_first(), e);
        assert(s[0].name != e.name);
        assert forall|n: Seq<char>|
            n != e.name implies find_entry(s.push(e), n) == find_entry(s, n) by {
            if s[0].name == n {
                assert(find_entry(s.push(e), n) == Some(s[0]));
                assert(find_entry(s, n) == Some(s[0]));
            } else {
                assert(find_entry(s.push(e), n) == find_entry(s.drop_first().push(e), n));
                assert(find_entry(s.drop_first().push(e), n) == find_entry(s.drop_first(), n));
                assert(find_entry(s, n) == find_entry(s.drop_first(), n));
            }
        }
    }
}

} // verus!
