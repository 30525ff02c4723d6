//! Modes: the registry of configured modes, and mode activation, where a message
//! such as `<@UBOT> [pm]` or `<@UBOT> pm` switches the thread into the named mode.
use vstd::prelude::*;
use vstd::utf8::encode_utf8;
use crate::text::{
    at_char, bytes_le, chars_of, first_where, is_whitespace, is_ws, lemma_first_where,
    lemma_first_where_bound, lemma_first_where_holds, lemma_first_where_none, lower_of, push_str,
    sort_strings, str_eq, string_of, sub_chars, to_lowercase, trim, trim_bounds, views,
};

verus! {

/// Longest mode name, in bytes.
pub const MAX_MODE_NAME_LEN: usize = 64;

/// Positions where `s` opens a Slack mention (`<@`).
pub open spec fn opens_mention(s: Seq<char>) -> spec_fn(int) -> bool {
    |k: int| s[k] == '<' && s[k + 1] == '@'
}

/// Positions where `s` holds whitespace.
pub open spec fn holds_ws(s: Seq<char>) -> spec_fn(int) -> bool {
    |k: int| is_ws(s[k])
}

/// Whether `s` fits a mode name: not empty, no space, at most `MAX_MODE_NAME_LEN` bytes.
pub open spec fn fits_mode_name(s: Seq<char>) -> bool {
    s.len() > 0 && !s.contains(' ') && encode_utf8(s).len() <= MAX_MODE_NAME_LEN
}

/// The text that follows the first Slack mention of a message, trimmed; `None`
/// when the message holds no complete mention.
pub open spec fn after_mention(text: Seq<char>) -> Option<Seq<char>> {
    let t = trim(text);
    let m = first_where(t.len() - 1, opens_mention(t));
    if m >= t.len() - 1 {
        None
    } else {
        let a = t.skip(m + 2);
        let c = first_where(a.len() as int, at_char(a, '>'));
        if c == a.len() {
            None
        } else {
            Some(trim(a.skip(c + 1)))
        }
    }
}

/// The mode name a message asks for, before lower-casing: after the mention,
/// either `[name]` (trimmed inside the brackets, later text ignored) or a single
/// word with no bracket; the name fits `fits_mode_name`.
pub open spec fn mode_candidate(text: Seq<char>) -> Option<Seq<char>> {
    match after_mention(text) {
        None => None,
        Some(am) => if am.len() == 0 {
            None
        } else if am[0] == '[' {
            let e = first_where(am.len() as int, at_char(am, ']'));
            if e == am.len() {
                None
            } else {
                let name = trim(am.subrange(1, e));
                if fits_mode_name(name) {
                    Some(name)
                } else {
                    None
                }
            }
        } else {
            let w = first_where(am.len() as int, holds_ws(am));
            if w == am.len() && !am.contains('[') && encode_utf8(am).len() <= MAX_MODE_NAME_LEN {
                Some(am)
            } else {
                None
            }
        },
    }
}

fn find_char(s: &Vec<char>, c: char) -> (r: usize)
    ensures
        r == first_where(s@.len() as int, at_char(s@, c)),
{
    let mut i: usize = 0;
    while i < s.len() && s[i] != c
        invariant
            i <= s.len(),
            forall|j: int| 0 <= j < i ==> s@[j] != c,
        decreases s.len() - i,
    {
        i = i + 1;
    }
    proof {
        assert forall|j: int| 0 <= j < i implies !#[trigger] at_char(s@, c)(j) by {}
        lemma_first_where(s@.len() as int, at_char(s@, c), i as int);
    }
    i
}

fn find_whitespace(s: &Vec<char>) -> (r: usize)
    ensures
        r == first_where(s@.len() as int, holds_ws(s@)),
{
    let mut i: usize = 0;
    while i < s.len() && !is_whitespace(s[i])
        invariant
            i <= s.len(),
            forall|j: int| 0 <= j < i ==> !is_ws(s@[j]),
        decreases s.len() - i,
    {
        i = i + 1;
    }
    proof {
        assert forall|j: int| 0 <= j < i implies !#[trigger] holds_ws(s@)(j) by {}
        lemma_first_where(s@.len() as int, holds_ws(s@), i as int);
    }
    i
}

fn find_mention_open(s: &Vec<char>) -> (r: usize)
    requires
        s.len() >= 1,
    ensures
        r == first_where(s@.len() - 1, opens_mention(s@)),
{
    let mut i: usize = 0;
    while i + 1 < s.len() && !(s[i] == '<' && s[i + 1] == '@')
        invariant
            i + 1 <= s.len(),
            forall|j: int| 0 <= j < i ==> !(#[trigger] s@[j] == '<' && s@[j + 1] == '@'),
        decreases s.len() - i,
    {
        i = i + 1;
    }
    proof {
        assert forall|j: int| 0 <= j < i implies !#[trigger] opens_mention(s@)(j) by {}
        lemma_first_where(s@.len() - 1, opens_mention(s@), i as int);
    }
    i
}

fn trimmed(cs: &Vec<char>) -> (r: Vec<char>)
    ensures
        r@ == trim(cs@),
{
    let (lo, hi) = trim_bounds(cs);
    sub_chars(cs, lo, hi)
}

fn contains_char(s: &Vec<char>, c: char) -> (r: bool)
    ensures
        r == s@.contains(c),
{
    let i = find_char(s, c);
    proof {
        if i < s.len() {
            lemma_first_where_holds(s@.len() as int, at_char(s@, c));
        } else {
            lemma_first_where_none(s@.len() as int, at_char(s@, c));
            assert forall|j: int| 0 <= j < s@.len() implies s@[j] != c by {
                assert(!at_char(s@, c)(j));
            }
        }
    }
    i < s.len()
}

fn after_mention_exec(text: &str) -> (r: Option<Vec<char>>)
    ensures
        r matches Some(v) ==> after_mention(text@) == Some(v@),
        r is None ==> after_mention(text@) is None,
{
    let cs = chars_of(text);
    let t = trimmed(&cs);
    if t.len() < 2 {
        proof {
            lemma_first_where_bound(t@.len() - 1, opens_mention(t@));
        }
        return None;
    }
    let m = find_mention_open(&t);
    if m >= t.len() - 1 {
        return None;
    }
    let a = sub_chars(&t, m + 2, t.len());
    assert(a@ =~= t@.skip(m + 2));
    let c = find_char(&a, '>');
    if c == a.len() {
        return None;
    }
    proof {
        lemma_first_where_bound(a@.len() as int, at_char(a@, '>'));
    }
    let rest = sub_chars(&a, c + 1, a.len());
    assert(rest@ =~= a@.skip(c + 1));
    Some(trimmed(&rest))
}

/// The lower-cased mode name that a message asks for, if any.
///
/// Matches `<@UBOT> [pm]` (later text allowed) and `<@UBOT> pm` (a single word,
/// nothing after it). Names are at most `MAX_MODE_NAME_LEN` bytes.
pub fn parse_mode_activation(text: &str) -> (r: Option<String>)
    ensures
        r matches Some(s) ==> (mode_candidate(text@) matches Some(m) && s@ == lower_of(m)),
        r is None <==> mode_candidate(text@) is None,
{
    let am = match after_mention_exec(text) {
        None => return None,
        Some(v) => v,
    };
    if am.len() == 0 {
        return None;
    }
    if am[0] == '[' {
        let e = find_char(&am, ']');
        if e == am.len() {
            return None;
        }
        proof {
            lemma_first_where_bound(am@.len() as int, at_char(am@, ']'));
            lemma_first_where_holds(am@.len() as int, at_char(am@, ']'));
            assert(am@[0] != ']');
        }
        let inner = sub_chars(&am, 1, e);
        let name = trimmed(&inner);
        let name_str = string_of(&name, 0, name.len());
        assert(name@.subrange(0, name@.len() as int) =~= name@);
        if name.len() > 0 && !contains_char(&name, ' ') && name_str.as_str().as_bytes().len()
            <= MAX_MODE_NAME_LEN {
            return Some(to_lowercase(name_str.as_str()));
        }
        return None;
    }
    let w = find_whitespace(&am);
    let word = string_of(&am, 0, am.len());
    assert(am@.subrange(0, am@.len() as int) =~= am@);
    if w == am.len() && !contains_char(&am, '[') && word.as_str().as_bytes().len() <= MAX_MODE_NAME_LEN {
        return Some(to_lowercase(word.as_str()));
    }
    None
}

/// A mode as configured: its name, optional response policy, and tool allowlist.
pub struct ModeConfig {
    /// The mode's name.
    pub name: String,
    /// When to answer and in what tone; appended to the prompt.
    pub response_policy: Option<String>,
    /// Tool allowlist (empty: all tools).
    pub tools: Vec<String>,
}

/// A resolved mode, ready for use.
pub struct ModeDefinition {
    /// The mode's name.
    pub name: String,
    /// The mode's system prompt.
    pub system_prompt: String,
    /// Tool allowlist (empty: all tools).
    pub allowed_tools: Vec<String>,
}

/// The system prompt of a mode: the base prompt, the tool instructions, then the
/// response policy under its own heading when there is one.
pub open spec fn mode_prompt(base: Seq<char>, suffix: Seq<char>, policy: Option<Seq<char>>) -> Seq<char> {
    base + suffix + match policy {
        Some(p) => "\n## Response Policy\n\n"@ + p + "\n\n"@,
        None => Seq::empty(),
    }
}

/// The names of the modes, in order.
pub open spec fn names_of(s: Seq<ModeDefinition>) -> Seq<Seq<char>> {
    s.map_values(|m: ModeDefinition| m.name@)
}

/// The configured modes, one per name.
pub struct ModeRegistry {
    modes: Vec<ModeDefinition>,
}

/// The prompt policy of a mode configuration.
pub open spec fn policy_of(c: ModeConfig) -> Option<Seq<char>> {
    match c.response_policy {
        Some(p) => Some(p@),
        None => None,
    }
}

/// Whether definition `d` is what the configurations before `k` give for its
/// name: the last of them with that name supplies its prompt.
pub open spec fn defined_by(
    d: ModeDefinition,
    modes: Seq<ModeConfig>,
    k: int,
    base: Seq<char>,
    suffix: Seq<char>,
) -> bool {
    exists|i: int|
        0 <= i < k && (#[trigger] modes[i]).name@ == d.name@ && d.system_prompt@ == mode_prompt(
            base,
            suffix,
            policy_of(modes[i]),
        ) && (forall|i2: int| i < i2 < k ==> (#[trigger] modes[i2]).name@ != d.name@)
}

impl ModeRegistry {
    /// The definitions, in registry order.
    pub closed spec fn definitions(&self) -> Seq<ModeDefinition> {
        self.modes@
    }

    /// The names of the modes, in registry order.
    pub closed spec fn names(&self) -> Seq<Seq<char>> {
        names_of(self.modes@)
    }

    /// Each name appears once.
    pub closed spec fn wf(&self) -> bool {
        self.names().no_duplicates()
    }

    /// Builds the registry: each configured mode gets `base_prompt`, then
    /// `tool_instructions_suffix`, then its response policy. A later mode of the
    /// same name replaces an earlier one.
    pub fn from_config(
        modes: &Vec<ModeConfig>,
        base_prompt: &str,
        tool_instructions_suffix: &str,
    ) -> (r: Self)
        ensures
            r.wf(),
            forall|n: Seq<char>| #[trigger] r.names().contains(n) <==> exists|i: int|
                0 <= i < modes@.len() && modes@[i].name@ == n,
            forall|j: int|
                0 <= j < r.definitions().len() ==> defined_by(
                    #[trigger] r.definitions()[j],
                    modes@,
                    modes@.len() as int,
                    base_prompt@,
                    tool_instructions_suffix@,
                ),
    {
        proof {
            reveal_strlit("\n## Response Policy\n\n");
            reveal_strlit("\n\n");
        }
        let mut defs: Vec<ModeDefinition> = Vec::new();
        let mut i: usize = 0;
        while i < modes.len()
            invariant
                i <= modes@.len(),
                names_of(defs@).no_duplicates(),
                forall|n: Seq<char>| #[trigger] names_of(defs@).contains(n)
                    <==> exists|j: int| 0 <= j < i && modes@[j].name@ == n,
                forall|j: int|
                    0 <= j < defs@.len() ==> defined_by(
                        #[trigger] defs@[j],
                        modes@,
                        i as int,
                        base_prompt@,
                        tool_instructions_suffix@,
                    ),
            decreases modes.len() - i,
        {
            let cfg = &modes[i];
            let mut prompt = String::new();
            push_str(&mut prompt, base_prompt);
            push_str(&mut prompt, tool_instructions_suffix);
            if let Some(policy) = &cfg.response_policy {
                push_str(&mut prompt, "\n## Response Policy\n\n");
                push_str(&mut prompt, policy.as_str());
                push_str(&mut prompt, "\n\n");
            }
            assert(prompt@ =~= mode_prompt(base_prompt@, tool_instructions_suffix@, policy_of(modes@[i as int])));
            let def = ModeDefinition {
                name: cfg.name.clone(),
                system_prompt: prompt,
                allowed_tools: cfg.tools.clone(),
            };
            let ghost before = defs@;
            let mut k: usize = 0;
            while k < defs.len() && !str_eq(defs[k].name.as_str(), cfg.name.as_str())
                invariant
                    defs@ == before,
                    k <= defs@.len(),
                    forall|j: int| 0 <= j < k ==> (#[trigger] defs@[j]).name@ != cfg.name@,
                decreases defs.len() - k,
            {
                k = k + 1;
            }
            if k < defs.len() {
                defs.set(k, def);
                proof {
                    assert forall|j: int| 0 <= j < defs@.len() implies defined_by(
                        #[trigger] defs@[j],
                        modes@,
                        i + 1,
                        base_prompt@,
                        tool_instructions_suffix@,
                    ) by {
                        if j == k {
                            assert(modes@[i as int].name@ == defs@[j].name@);
                        } else {
                            assert(defs@[j] == before[j]);
                            assert(names_of(before)[j] != names_of(before)[k as int]);
                            let w = choose|w: int|
                                0 <= w < i && (#[trigger] modes@[w]).name@ == before[j].name@
                                    && before[j].system_prompt@ == mode_prompt(
                                    base_prompt@,
                                    tool_instructions_suffix@,
                                    policy_of(modes@[w]),
                                ) && (forall|i2: int| w < i2 < i ==> (#[trigger] modes@[i2]).name@ != before[j].name@);
                            assert(modes@[w].name@ == defs@[j].name@);
                        }
                    }
                    let nb = names_of(before);
                    let na = names_of(defs@);
                    assert(na =~= nb);
                    assert forall|n: Seq<char>| #[trigger] na.contains(n) <==> exists|j: int|
                        0 <= j < i + 1 && modes@[j].name@ == n by {
                        if n == cfg.name@ {
                            assert(nb[k as int] == n);
                        }
                        if exists|j: int| 0 <= j < i + 1 && modes@[j].name@ == n {
                            let j = choose|j: int| 0 <= j < i + 1 && modes@[j].name@ == n;
                            if j < i {
                                assert(exists|j2: int| 0 <= j2 < i && modes@[j2].name@ == n);
                            }
                        }
                        if na.contains(n) {
                            assert(nb.contains(n));
                        }
                    }
                }
            } else {
                defs.push(def);
                proof {
                    assert forall|j: int| 0 <= j < defs@.len() implies defined_by(
                        #[trigger] defs@[j],
                        modes@,
                        i + 1,
                        base_prompt@,
                        tool_instructions_suffix@,
                    ) by {
                        if j == before.len() {
                            assert(modes@[i as int].name@ == defs@[j].name@);
                        } else {
                            assert(defs@[j] == before[j]);
                            assert(before[j].name@ != cfg.name@);
                            let w = choose|w: int|
                                0 <= w < i && (#[trigger] modes@[w]).name@ == before[j].name@
                                    && before[j].system_prompt@ == mode_prompt(
                                    base_prompt@,
                                    tool_instructions_suffix@,
                                    policy_of(modes@[w]),
                                ) && (forall|i2: int| w < i2 < i ==> (#[trigger] modes@[i2]).name@ != before[j].name@);
                            assert(modes@[w].name@ == defs@[j].name@);
                        }
                    }
                    let nb = names_of(before);
                    let na = names_of(defs@);
                    assert(na =~= nb.push(cfg.name@));
                    assert(!nb.contains(cfg.name@)) by {
                        if nb.contains(cfg.name@) {
                            let j = choose|j: int| 0 <= j < nb.len() && nb[j] == cfg.name@;
                            assert(before[j].name@ == cfg.name@);
                        }
                    }
                    assert forall|n: Seq<char>| #[trigger] na.contains(n) <==> exists|j: int|
                        0 <= j < i + 1 && modes@[j].name@ == n by {
                        if na.contains(n) {
                            let j = choose|j: int| 0 <= j < na.len() && na[j] == n;
                            if j < nb.len() {
                                assert(nb[j] == n);
                                assert(nb.contains(n));
                            }
                        }
                        if exists|j: int| 0 <= j < i + 1 && modes@[j].name@ == n {
                            let j = choose|j: int| 0 <= j < i + 1 && modes@[j].name@ == n;
                            if j < i {
                                assert(exists|j2: int| 0 <= j2 < i && modes@[j2].name@ == n);
                                assert(nb.contains(n));
                                let q = choose|q: int| 0 <= q < nb.len() && nb[q] == n;
                                assert(na[q] == n);
                            } else {
                                assert(na[nb.len() as int] == n);
                            }
                        }
                    }
                    assert(na.no_duplicates()) by {
                        assert forall|a: int, b: int| 0 <= a < b < na.len() implies na[a] != na[b] by {
                            if b == nb.len() {
                                assert(na[a] == nb[a]);
                            } else {
                                assert(na[a] == nb[a] && na[b] == nb[b]);
                            }
                        }
                    }
                }
            }
            i = i + 1;
        }
        ModeRegistry { modes: defs }
    }

    /// Whether a mode of that name is configured.
    pub fn has_mode(&self, name: &str) -> (r: bool)
        ensures
            r == self.names().contains(name@),
    {
        self.find(name).is_some()
    }

    fn find(&self, name: &str) -> (r: Option<usize>)
        ensures
            r matches Some(i) ==> i < self.modes@.len() && self.modes@[i as int].name@ == name@,
            r is Some <==> self.names().contains(name@),
    {
        let mut i: usize = 0;
        while i < self.modes.len()
            invariant
                i <= self.modes@.len(),
                forall|j: int| 0 <= j < i ==> (#[trigger] self.modes@[j]).name@ != name@,
            decreases self.modes.len() - i,
        {
            if str_eq(self.modes[i].name.as_str(), name) {
                assert(self.names()[i as int] == name@);
                return Some(i);
            }
            i = i + 1;
        }
        proof {
            if self.names().contains(name@) {
                let j = choose|j: int| 0 <= j < self.names().len() && self.names()[j] == name@;
                assert(self.modes@[j].name@ == name@);
            }
        }
        None
    }

    /// The mode of that name, if configured.
    pub fn get_mode(&self, name: &str) -> (r: Option<&ModeDefinition>)
        ensures
            r is Some <==> self.names().contains(name@),
            r matches Some(m) ==> m.name@ == name@ && exists|j: int|
                0 <= j < self.definitions().len() && self.definitions()[j] == *m,
    {
        match self.find(name) {
            Some(i) => {
                let m = &self.modes[i];
                assert(self.definitions()[i as int] == *m);
                Some(m)
            },
            None => None,
        }
    }

    /// The names of the modes, in ascending byte order.
    pub fn mode_names(&self) -> (r: Vec<String>)
        ensures
            views(r@).to_multiset() == self.names().to_multiset(),
            forall|i: int, j: int|
                0 <= i < j < r@.len() ==> bytes_le(
                    vstd::utf8::encode_utf8(#[trigger] r@[i]@),
                    vstd::utf8::encode_utf8(#[trigger] r@[j]@),
                ),
    {
        let mut names: Vec<String> = Vec::new();
        let mut i: usize = 0;
        while i < self.modes.len()
            invariant
                i <= self.modes@.len(),
                views(names@) == self.names().take(i as int),
            decreases self.modes.len() - i,
        {
            let ghost before = names@;
            names.push(self.modes[i].name.clone());
            proof {
                assert(names@ =~= before.push(self.modes@[i as int].name));
                assert(views(names@) =~= views(before).push(self.modes@[i as int].name@));
                assert(self.names()[i as int] == self.modes@[i as int].name@);
                assert(views(names@) =~= self.names().take(i + 1));
            }
            i = i + 1;
        }
        assert(self.names().take(self.modes@.len() as int) =~= self.names());
        sort_strings(&mut names);
        names
    }
}

} // verus!
