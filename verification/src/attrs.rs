//! Parsing of the argument list of an endpoint attribute, such as
//! `idempotent, auth = check_token`.
//!
//! The arguments are comma-separated groups. A group of one word `k` stands for
//! `k = true`; a group `k = v` binds `k` to `v`. Words joined by `:`, `(` or
//! `)` form one word (so `auth = crate::check` binds `auth` to `crate::check`).
//! A later group for the same key replaces an earlier one. The recognised keys
//! are `idempotent` (a boolean, `false` when absent) and `auth` (required).
use vstd::prelude::*;
use crate::text::{push_char, strip, unquote};

verus! {

/// One token of an attribute's argument list.
pub enum AttrToken {
    /// An identifier, with its text.
    Ident(String),
    /// A literal, with its source text (a string literal keeps its quotes).
    Literal(String),
    /// A single punctuation character.
    Punct(char),
    /// A delimited group (`(..)`, `[..]` or `{..}`).
    Group,
}

/// Why an argument list was refused. Token positions are indices into the
/// token list; a span `start..end` covers the tokens of one group, its
/// closing comma included.
#[derive(PartialEq, Eq, Structural, Clone, Copy, Debug)]
pub enum AttrError {
    /// A punctuation mark other than `=`, `,`, `:`, `(` and `)`.
    UnexpectedPunct { mark: char, at: usize },
    /// A delimited group.
    UnexpectedToken { at: usize },
    /// A group of more than two words.
    TooManyValues { start: usize, end: usize },
    /// `idempotent` bound to something other than `true` or `false`.
    InvalidIdempotent { start: usize, end: usize },
    /// No `auth` key.
    MissingAuth,
}

/// The message reported for each error.
pub open spec fn attr_error_text(e: AttrError) -> Seq<char> {
    match e {
        AttrError::UnexpectedPunct { mark, .. } => "Unexpected punctuation mark: "@.push(mark),
        AttrError::UnexpectedToken { .. } => "I have no idea what this guy is doing here"@,
        AttrError::TooManyValues { .. } =>
            "sAttributes should either have a single value (idempotent = true), or be present to indicate a value of 'true'."@,
        AttrError::InvalidIdempotent { .. } => "Attribute 'idempotent' must be a valid boolean"@,
        AttrError::MissingAuth => "No auth handler provided"@,
    }
}

impl AttrError {
    /// The error's message.
    pub fn message(&self) -> (res: String)
        ensures
            res@ == attr_error_text(*self),
    {
        match self {
            AttrError::UnexpectedPunct { mark, .. } => {
                let mut s = String::from_str("Unexpected punctuation mark: ");
                push_char(&mut s, *mark);
                s
            },
            AttrError::UnexpectedToken { .. } => String::from_str(
                "I have no idea what this guy is doing here",
            ),
            AttrError::TooManyValues { .. } => String::from_str(
                "sAttributes should either have a single value (idempotent = true), or be present to indicate a value of 'true'.",
            ),
            AttrError::InvalidIdempotent { .. } => String::from_str(
                "Attribute 'idempotent' must be a valid boolean",
            ),
            AttrError::MissingAuth => String::from_str("No auth handler provided"),
        }
    }
}

/// What an endpoint attribute declares.
pub struct RouteInfo {
    /// Whether the endpoint answers idempotent methods (`PUT`) rather than `POST`.
    pub is_idempotent: bool,
    /// The text of the authorisation handler's path.
    pub auth: String,
}

/// A key/value binding of the argument list, with the span of its group.
pub struct AttrEntry {
    pub key: String,
    pub value: String,
    pub start: usize,
    pub end: usize,
}

/// Value bound to a key, with the span of the group that bound it.
pub type Binding = (Seq<char>, int, int);

/// The scanner's state: bindings so far, words of the open group, and where
/// the open group starts.
pub struct GroupsState {
    pub map: Map<Seq<char>, Binding>,
    pub buf: Seq<Seq<char>>,
    pub start: int,
}

/// Result of scanning a prefix of the tokens.
pub enum Scan {
    Running(GroupsState),
    Failed(AttrError),
    /// A word that starts with `:`, `(` or `)` arrived with no word to join
    /// it to; the scanner has no defined result for such input.
    Stuck,
}

pub open spec fn is_sep(c: char) -> bool {
    c == '(' || c == ')' || c == ':'
}

pub open spec fn starts_with_sep(s: Seq<char>) -> bool {
    s.len() > 0 && is_sep(s[0])
}

pub open spec fn ends_with_sep(s: Seq<char>) -> bool {
    s.len() > 0 && is_sep(s[s.len() - 1])
}

/// The words of the open group after word `s` arrives: `s` is joined to the
/// last word when that word ends, or `s` starts, with a separator; otherwise
/// it is a new word. `None` when it must be joined but there is no last word.
pub open spec fn push_or_append_spec(buf: Seq<Seq<char>>, s: Seq<char>) -> Option<Seq<Seq<char>>> {
    if (buf.len() > 0 && ends_with_sep(buf[buf.len() - 1])) || starts_with_sep(s) {
        if buf.len() == 0 {
            None
        } else {
            Some(buf.update(buf.len() - 1, buf[buf.len() - 1] + s))
        }
    } else {
        Some(buf.push(s))
    }
}

/// The bindings after the group `buf`, spanning `start..end`, closes.
pub open spec fn close_group(
    map: Map<Seq<char>, Binding>,
    buf: Seq<Seq<char>>,
    start: int,
    end: int,
) -> Result<Map<Seq<char>, Binding>, AttrError> {
    if buf.len() == 0 {
        Ok(map)
    } else if buf.len() == 1 {
        Ok(map.insert(buf[0], ("true"@, start, end)))
    } else if buf.len() == 2 {
        Ok(map.insert(buf[0], (buf[1], start, end)))
    } else {
        Err(AttrError::TooManyValues { start: start as usize, end: end as usize })
    }
}

pub open spec fn scan_word(st: GroupsState, s: Seq<char>) -> Scan {
    match push_or_append_spec(st.buf, s) {
        Some(b) => Scan::Running(GroupsState { map: st.map, buf: b, start: st.start }),
        None => Scan::Stuck,
    }
}

/// One step of the scanner on the token at position `i`.
pub open spec fn scan_token(st: GroupsState, t: AttrToken, i: int) -> Scan {
    match t {
        AttrToken::Ident(s) => scan_word(st, s@),
        AttrToken::Literal(s) => scan_word(st, unquote(s@)),
        AttrToken::Punct(c) => {
            if c == '=' {
                Scan::Running(st)
            } else if is_sep(c) {
                scan_word(st, seq![c])
            } else if c == ',' {
                match close_group(st.map, st.buf, st.start, i + 1) {
                    Ok(m) => Scan::Running(GroupsState { map: m, buf: seq![], start: i + 1 }),
                    Err(e) => Scan::Failed(e),
                }
            } else {
                Scan::Failed(AttrError::UnexpectedPunct { mark: c, at: i as usize })
            }
        },
        AttrToken::Group => Scan::Failed(AttrError::UnexpectedToken { at: i as usize }),
    }
}

/// The scanner after the first `n` tokens.
pub open spec fn scan(tokens: Seq<AttrToken>, n: nat) -> Scan
    decreases n,
{
    if n == 0 {
        Scan::Running(GroupsState { map: Map::empty(), buf: seq![], start: 0 })
    } else {
        match scan(tokens, (n - 1) as nat) {
            Scan::Running(st) => scan_token(st, tokens[n - 1], n - 1),
            other => other,
        }
    }
}

/// The scanner never gets stuck on `tokens`.
pub open spec fn scans_fully(tokens: Seq<AttrToken>) -> bool {
    !(scan(tokens, tokens.len()) is Stuck)
}

/// The declared attribute, from the final bindings: `idempotent` must be
/// `true` or `false` when given, and `auth` must be given.
pub open spec fn finish(map: Map<Seq<char>, Binding>) -> Result<(bool, Seq<char>), AttrError> {
    let idem: Result<bool, AttrError> = if map.contains_key("idempotent"@) {
        let b = map["idempotent"@];
        if b.0 == "true"@ {
            Ok(true)
        } else if b.0 == "false"@ {
            Ok(false)
        } else {
            Err(AttrError::InvalidIdempotent { start: b.1 as usize, end: b.2 as usize })
        }
    } else {
        Ok(false)
    };
    match idem {
        Err(e) => Err(e),
        Ok(i) => if map.contains_key("auth"@) {
            Ok((i, map["auth"@].0))
        } else {
            Err(AttrError::MissingAuth)
        },
    }
}

/// What parsing `tokens` yields: the idempotence flag and the auth handler's
/// text, or the first error.
pub open spec fn parse_spec(tokens: Seq<AttrToken>) -> Result<(bool, Seq<char>), AttrError> {
    match scan(tokens, tokens.len()) {
        Scan::Running(st) => match close_group(st.map, st.buf, st.start, tokens.len() as int) {
            Ok(m) => finish(m),
            Err(e) => Err(e),
        },
        Scan::Failed(e) => Err(e),
        Scan::Stuck => Err(AttrError::MissingAuth),
    }
}

/// `res` is the executable form of the specified result `r`.
pub open spec fn parse_result_is(res: Result<RouteInfo, AttrError>, r: Result<(bool, Seq<char>), AttrError>) -> bool {
    match res {
        Ok(info) => r == Ok::<(bool, Seq<char>), AttrError>((info.is_idempotent, info.auth@)),
        Err(e) => r == Err::<(bool, Seq<char>), AttrError>(e),
    }
}

pub open spec fn strings_view(v: Seq<String>) -> Seq<Seq<char>> {
    v.map_values(|s: String| s@)
}

/// The bindings that a list of entries stands for: later entries replace
/// earlier ones with the same key.
pub open spec fn entries_map(es: Seq<AttrEntry>) -> Map<Seq<char>, Binding>
    decreases es.len(),
{
    if es.len() == 0 {
        Map::empty()
    } else {
        let e = es[es.len() - 1];
        entries_map(es.drop_last()).insert(e.key@, (e.value@, e.start as int, e.end as int))
    }
}

proof fn lemma_entries_lookup(es: Seq<AttrEntry>, key: Seq<char>, j: int)
    requires
        -1 <= j < es.len(),
        forall|k: int| j < k < es.len() ==> es[k].key@ != key,
        j >= 0 ==> es[j].key@ == key,
    ensures
        j < 0 ==> !entries_map(es).contains_key(key),
        j >= 0 ==> entries_map(es).contains_key(key) && entries_map(es)[key] == (
            es[j].value@,
            es[j].start as int,
            es[j].end as int,
        ),
    decreases es.len(),
{
    if es.len() > 0 {
        if j == es.len() - 1 {
        } else {
            lemma_entries_lookup(es.drop_last(), key, j);
        }
    }
}

proof fn lemma_scan_stuck_stays(tokens: Seq<AttrToken>, k: nat, n: nat)
    requires
        k <= n,
        scan(tokens, k) is Stuck,
    ensures
        scan(tokens, n) is Stuck,
    decreases n,
{
    if k < n {
        lemma_scan_stuck_stays(tokens, k, (n - 1) as nat);
    }
}

proof fn lemma_scan_failed_stays(tokens: Seq<AttrToken>, k: nat, n: nat, e: AttrError)
    requires
        k <= n,
        scan(tokens, k) == Scan::Failed(e),
    ensures
        scan(tokens, n) == Scan::Failed(e),
    decreases n,
{
    if k < n {
        lemma_scan_failed_stays(tokens, k, (n - 1) as nat, e);
    }
}

fn is_sep_char(c: char) -> (b: bool)
    ensures
        b == is_sep(c),
{
    c == '(' || c == ')' || c == ':'
}

fn starts_with_sep_str(s: &str) -> (b: bool)
    ensures
        b == starts_with_sep(s@),
{
    let n = s.unicode_len();
    n > 0 && is_sep_char(s.get_char(0))
}

fn ends_with_sep_str(s: &str) -> (b: bool)
    ensures
        b == ends_with_sep(s@),
{
    let n = s.unicode_len();
    n > 0 && is_sep_char(s.get_char(n - 1))
}

/// Position of the entry that binds `key` (the last one with that key).
fn lookup(es: &Vec<AttrEntry>, key: &String) -> (res: Option<usize>)
    ensures
        match res {
            Some(j) => j < es@.len() && entries_map(es@).contains_key(key@) && entries_map(es@)[key@]
                == (es@[j as int].value@, es@[j as int].start as int, es@[j as int].end as int),
            None => !entries_map(es@).contains_key(key@),
        },
{
    let mut i = es.len();
    while i > 0
        invariant
            i <= es@.len(),
            forall|k: int| i <= k < es@.len() ==> es@[k].key@ != key@,
        decreases i,
    {
        if es[i - 1].key == *key {
            proof {
                lemma_entries_lookup(es@, key@, i - 1);
            }
            return Some(i - 1);
        }
        i = i - 1;
    }
    proof {
        lemma_entries_lookup(es@, key@, -1);
    }
    None
}

impl RouteInfo {
    /// Adds word `s` to the open group: joined to the last word when that word
    /// ends, or `s` starts, with `:`, `(` or `)`; otherwise as a new word.
    fn push_or_append(s: &str, buf: &mut Vec<String>)
        requires
            push_or_append_spec(strings_view(old(buf)@), s@) is Some,
        ensures
            push_or_append_spec(strings_view(old(buf)@), s@) == Some(strings_view(final(buf)@)),
    {
        let n = buf.len();
        let joins = (n > 0 && ends_with_sep_str(buf[n - 1].as_str())) || starts_with_sep_str(s);
        if joins {
            let mut last = buf.pop().unwrap();
            last.append(s);
            buf.push(last);
            assert(strings_view(buf@) =~= strings_view(old(buf)@).update(
                n - 1,
                strings_view(old(buf)@)[n - 1] + s@,
            ));
        } else {
            buf.push(String::from_str(s));
            assert(strings_view(buf@) =~= strings_view(old(buf)@).push(s@));
        }
    }

    /// Closes the open group `buf`, which spans `start..end`: records its
    /// binding and empties `buf`.
    fn parse_groups(
        map: &mut Vec<AttrEntry>,
        buf: &mut Vec<String>,
        start: usize,
        end: usize,
    ) -> (res: Result<(), AttrError>)
        ensures
            match close_group(entries_map(old(map)@), strings_view(old(buf)@), start as int, end as int) {
                Ok(m) => res is Ok && entries_map(final(map)@) == m && final(buf)@.len() == 0,
                Err(e) => res == Err::<(), AttrError>(e) && final(map)@ == old(map)@ && final(buf)@
                    == old(buf)@,
            },
    {
        let n = buf.len();
        if n == 0 {
        } else if n == 1 {
            let entry = AttrEntry {
                key: buf[0].clone(),
                value: String::from_str("true"),
                start,
                end,
            };
            map.push(entry);
            assert(map@.drop_last() =~= old(map)@);
        } else if n == 2 {
            let entry = AttrEntry { key: buf[0].clone(), value: buf[1].clone(), start, end };
            map.push(entry);
            assert(map@.drop_last() =~= old(map)@);
        } else {
            return Err(AttrError::TooManyValues { start, end });
        }
        buf.clear();
        Ok(())
    }

    /// Scans `tokens`, or reports `None` where the scanner gets stuck.
    fn scan_tokens(tokens: &Vec<AttrToken>) -> (res: Option<Result<RouteInfo, AttrError>>)
        ensures
            res is None <==> !scans_fully(tokens@),
            res matches Some(r) ==> parse_result_is(r, parse_spec(tokens@)),
    {
        let mut map: Vec<AttrEntry> = Vec::new();
        let mut buf: Vec<String> = Vec::new();
        let mut start: usize = 0;
        let n = tokens.len();
        let mut i: usize = 0;
        assert(strings_view(buf@) =~= Seq::<Seq<char>>::empty());
        while i < n
            invariant
                n == tokens@.len(),
                i <= n,
                start <= i,
                scan(tokens@, i as nat) == Scan::Running(
                    GroupsState { map: entries_map(map@), buf: strings_view(buf@), start: start as int },
                ),
            decreases n - i,
        {
            let ghost st = GroupsState {
                map: entries_map(map@),
                buf: strings_view(buf@),
                start: start as int,
            };
            assert(scan(tokens@, (i + 1) as nat) == scan_token(st, tokens@[i as int], i as int));
            match &tokens[i] {
                AttrToken::Ident(s) => {
                    if buf.len() == 0 && starts_with_sep_str(s.as_str()) {
                        proof {
                            lemma_scan_stuck_stays(tokens@, (i + 1) as nat, n as nat);
                        }
                        return None;
                    }
                    RouteInfo::push_or_append(s.as_str(), &mut buf);
                },
                AttrToken::Literal(l) => {
                    let s = strip(l.as_str());
                    if buf.len() == 0 && starts_with_sep_str(s.as_str()) {
                        proof {
                            lemma_scan_stuck_stays(tokens@, (i + 1) as nat, n as nat);
                        }
                        return None;
                    }
                    RouteInfo::push_or_append(s.as_str(), &mut buf);
                },
                AttrToken::Punct(c) => {
                    let c = *c;
                    if c == '=' {
                    } else if is_sep_char(c) {
                        if buf.len() == 0 {
                            proof {
                                lemma_scan_stuck_stays(tokens@, (i + 1) as nat, n as nat);
                            }
                            return None;
                        }
                        let mut s = String::new();
                        push_char(&mut s, c);
                        assert(s@ =~= seq![c]);
                        RouteInfo::push_or_append(s.as_str(), &mut buf);
                    } else if c == ',' {
                        match RouteInfo::parse_groups(&mut map, &mut buf, start, i + 1) {
                            Ok(()) => {
                                start = i + 1;
                                assert(strings_view(buf@) =~= Seq::<Seq<char>>::empty());
                            },
                            Err(e) => {
                                proof {
                                    lemma_scan_failed_stays(tokens@, (i + 1) as nat, n as nat, e);
                                }
                                return Some(Err(e));
                            },
                        }
                    } else {
                        proof {
                            lemma_scan_failed_stays(
                                tokens@,
                                (i + 1) as nat,
                                n as nat,
                                AttrError::UnexpectedPunct { mark: c, at: i },
                            );
                        }
                        return Some(Err(AttrError::UnexpectedPunct { mark: c, at: i }));
                    }
                },
                AttrToken::Group => {
                    proof {
                        lemma_scan_failed_stays(
                            tokens@,
                            (i + 1) as nat,
                            n as nat,
                            AttrError::UnexpectedToken { at: i },
                        );
                    }
                    return Some(Err(AttrError::UnexpectedToken { at: i }));
                },
            }
            i = i + 1;
        }
        match RouteInfo::parse_groups(&mut map, &mut buf, start, n) {
            Ok(()) => {},
            Err(e) => {
                return Some(Err(e));
            },
        }
        let idem_key = String::from_str("idempotent");
        let is_idempotent = match lookup(&map, &idem_key) {
            Some(j) => {
                let t = String::from_str("true");
                let f = String::from_str("false");
                if map[j].value == t {
                    true
                } else if map[j].value == f {
                    false
                } else {
                    return Some(
                        Err(AttrError::InvalidIdempotent { start: map[j].start, end: map[j].end }),
                    );
                }
            },
            None => false,
        };
        let auth_key = String::from_str("auth");
        match lookup(&map, &auth_key) {
            Some(j) => Some(Ok(RouteInfo { is_idempotent, auth: map[j].value.clone() })),
            None => Some(Err(AttrError::MissingAuth)),
        }
    }

    /// Whether `parse` is defined on `tokens`: false exactly when a word that
    /// starts with `:`, `(` or `)` opens a group, before any error.
    pub fn can_parse(tokens: &Vec<AttrToken>) -> (b: bool)
        ensures
            b == scans_fully(tokens@),
    {
        RouteInfo::scan_tokens(tokens).is_some()
    }

    /// Parses an endpoint attribute's argument list.
    pub fn parse(tokens: &Vec<AttrToken>) -> (res: Result<RouteInfo, AttrError>)
        requires
            scans_fully(tokens@),
        ensures
            parse_result_is(res, parse_spec(tokens@)),
    {
        match RouteInfo::scan_tokens(tokens) {
            Some(r) => r,
            None => Err(AttrError::MissingAuth),
        }
    }
}

} // verus!

verus! {

/// One `key` or `key = value` group of an argument list.
pub struct AttrGroup {
    pub key: Seq<char>,
    pub value: Option<Seq<char>>,
}

/// A word that neither starts nor ends with `:`, `(` or `)`, so that it is
/// never joined to a neighbour.
pub open spec fn plain_word(s: Seq<char>) -> bool {
    !starts_with_sep(s) && !ends_with_sep(s)
}

pub open spec fn plain_group(g: AttrGroup) -> bool {
    plain_word(g.key) && (g.value matches Some(v) ==> plain_word(v))
}

/// Number of tokens of `g` without its comma.
pub open spec fn group_len(g: AttrGroup) -> int {
    if g.value is Some {
        3
    } else {
        1
    }
}

/// `tokens` holds, from position `at`, the tokens of `g`: `key` or
/// `key = value`.
pub open spec fn group_at(tokens: Seq<AttrToken>, at: int, g: AttrGroup) -> bool {
    &&& 0 <= at
    &&& at + group_len(g) <= tokens.len()
    &&& tokens[at] matches AttrToken::Ident(k) && k@ == g.key
    &&& g.value matches Some(v) ==> {
        &&& tokens[at + 1] == AttrToken::Punct('=')
        &&& tokens[at + 2] matches AttrToken::Ident(w) && w@ == v
    }
}

/// The first `len` tokens are the groups `gs`, each followed by a comma.
pub open spec fn groups_before(tokens: Seq<AttrToken>, len: int, gs: Seq<AttrGroup>) -> bool
    decreases gs.len(),
{
    if gs.len() == 0 {
        len == 0
    } else {
        let g = gs[gs.len() - 1];
        let at = len - group_len(g) - 1;
        &&& group_at(tokens, at, g)
        &&& tokens[len - 1] == AttrToken::Punct(',')
        &&& groups_before(tokens, at, gs.drop_last())
    }
}

/// `tokens` is the comma-separated list of the groups `gs`.
pub open spec fn renders(tokens: Seq<AttrToken>, gs: Seq<AttrGroup>) -> bool {
    if gs.len() == 0 {
        tokens.len() == 0
    } else {
        let g = gs[gs.len() - 1];
        let at = tokens.len() - group_len(g);
        group_at(tokens, at, g) && groups_before(tokens, at, gs.drop_last())
    }
}

/// The binding of one group: its value, or `true` for a bare key.
pub open spec fn group_value(g: AttrGroup) -> Seq<char> {
    match g.value {
        Some(v) => v,
        None => "true"@,
    }
}

/// The bindings of `gs`: later groups replace earlier ones.
pub open spec fn bindings(gs: Seq<AttrGroup>) -> Map<Seq<char>, Seq<char>>
    decreases gs.len(),
{
    if gs.len() == 0 {
        Map::empty()
    } else {
        let g = gs[gs.len() - 1];
        bindings(gs.drop_last()).insert(g.key, group_value(g))
    }
}

pub open spec fn binds_like(m: Map<Seq<char>, Binding>, b: Map<Seq<char>, Seq<char>>) -> bool {
    &&& m.dom() == b.dom()
    &&& forall|k: Seq<char>| #[trigger] m.dom().contains(k) ==> m[k].0 == b[k]
}

proof fn lemma_scan_group(tokens: Seq<AttrToken>, at: int, g: AttrGroup, st: GroupsState)
    requires
        group_at(tokens, at, g),
        plain_group(g),
        scan(tokens, at as nat) == Scan::Running(st),
        st.buf.len() == 0,
    ensures
        scan(tokens, (at + group_len(g)) as nat) == Scan::Running(
            GroupsState {
                map: st.map,
                buf: match g.value {
                    Some(v) => seq![g.key, v],
                    None => seq![g.key],
                },
                start: st.start,
            },
        ),
{
    let n1 = (at + 1) as nat;
    assert(scan(tokens, n1) == scan_token(st, tokens[at], at));
    assert(seq![g.key] =~= st.buf.push(g.key));
    if let Some(v) = g.value {
        let st1 = GroupsState { map: st.map, buf: seq![g.key], start: st.start };
        assert(scan(tokens, (at + 2) as nat) == scan_token(st1, tokens[at + 1], at + 1));
        assert(scan(tokens, (at + 3) as nat) == scan_token(st1, tokens[at + 2], at + 2));
        assert(seq![g.key, v] =~= seq![g.key].push(v));
    }
}

proof fn lemma_groups_before(tokens: Seq<AttrToken>, len: int, gs: Seq<AttrGroup>)
    requires
        groups_before(tokens, len, gs),
        len <= tokens.len(),
        forall|i: int| 0 <= i < gs.len() ==> plain_group(#[trigger] gs[i]),
    ensures
        scan(tokens, len as nat) matches Scan::Running(st) && st.buf.len() == 0 && st.start == len
            && binds_like(st.map, bindings(gs)),
    decreases gs.len(),
{
    if gs.len() > 0 {
        let g = gs[gs.len() - 1];
        let at = len - group_len(g) - 1;
        assert(plain_group(gs[gs.len() - 1]));
        lemma_groups_before(tokens, at, gs.drop_last());
        let st = scan(tokens, at as nat)->Running_0;
        lemma_scan_group(tokens, at, g, st);
        let buf = match g.value {
            Some(v) => seq![g.key, v],
            None => seq![g.key],
        };
        let st2 = GroupsState { map: st.map, buf, start: st.start };
        assert(scan(tokens, len as nat) == scan_token(st2, tokens[len - 1], len - 1));
        let m = st.map.insert(g.key, (group_value(g), st.start, len));
        assert(close_group(st.map, buf, st.start, len) == Ok::<Map<Seq<char>, Binding>, AttrError>(m));
        assert(m.dom() =~= bindings(gs).dom());
    } else {
        assert(Map::<Seq<char>, Binding>::empty().dom() =~= Map::<Seq<char>, Seq<char>>::empty().dom());
    }
}

/// What an argument list of the groups `gs` declares, by its bindings.
pub open spec fn declared(b: Map<Seq<char>, Seq<char>>) -> Option<(bool, Seq<char>)> {
    let idem_ok = !b.contains_key("idempotent"@) || b["idempotent"@] == "true"@ || b["idempotent"@]
        == "false"@;
    if idem_ok && b.contains_key("auth"@) {
        Some((b.contains_key("idempotent"@) && b["idempotent"@] == "true"@, b["auth"@]))
    } else {
        None
    }
}

/// A comma-separated list of groups `key` or `key = value`, whose words are
/// plain, always parses, and declares what its bindings say: a bare key binds
/// `true`, a later group for a key replaces an earlier one, `idempotent` is
/// `false` when absent and must be `true` or `false` when present, and `auth`
/// must be bound. When `auth` is missing but `idempotent` is valid, the error
/// is `MissingAuth`.
pub proof fn law_parse_declares_bindings(tokens: Seq<AttrToken>, gs: Seq<AttrGroup>)
    requires
        renders(tokens, gs),
        forall|i: int| 0 <= i < gs.len() ==> plain_group(#[trigger] gs[i]),
    ensures
        scans_fully(tokens),
        match declared(bindings(gs)) {
            Some((idem, auth)) => parse_spec(tokens) == Ok::<(bool, Seq<char>), AttrError>(
                (idem, auth),
            ),
            None => parse_spec(tokens) is Err,
        },
        declared(bindings(gs)) is None && (!bindings(gs).contains_key("idempotent"@)
            || bindings(gs)["idempotent"@] == "true"@ || bindings(gs)["idempotent"@] == "false"@)
            ==> parse_spec(tokens) == Err::<(bool, Seq<char>), AttrError>(AttrError::MissingAuth),
{
    let n = tokens.len() as int;
    if gs.len() == 0 {
        assert(binds_like(Map::empty(), bindings(gs))) by {
            assert(Map::<Seq<char>, Binding>::empty().dom() =~= bindings(gs).dom());
        }
    } else {
        let g = gs[gs.len() - 1];
        let at = n - group_len(g);
        assert(plain_group(gs[gs.len() - 1]));
        lemma_groups_before(tokens, at, gs.drop_last());
        let st = scan(tokens, at as nat)->Running_0;
        lemma_scan_group(tokens, at, g, st);
        let buf = match g.value {
            Some(v) => seq![g.key, v],
            None => seq![g.key],
        };
        let m = st.map.insert(g.key, (group_value(g), st.start, n));
        assert(close_group(st.map, buf, st.start, n) == Ok::<Map<Seq<char>, Binding>, AttrError>(m));
        assert(m.dom() =~= bindings(gs).dom());
        assert(binds_like(m, bindings(gs)));
        assert(parse_spec(tokens) == finish(m));
    }
}

} // verus!

verus! {

/// `tokens` without its `=` marks.
pub open spec fn without_eq(tokens: Seq<AttrToken>) -> Seq<AttrToken>
    decreases tokens.len(),
{
    if tokens.len() == 0 {
        seq![]
    } else {
        let rest = without_eq(tokens.drop_last());
        let t = tokens[tokens.len() - 1];
        if t == AttrToken::Punct('=') {
            rest
        } else {
            rest.push(t)
        }
    }
}

/// Two binding maps bind the same keys to the same values (spans aside).
pub open spec fn same_bindings(m1: Map<Seq<char>, Binding>, m2: Map<Seq<char>, Binding>) -> bool {
    &&& m1.dom() == m2.dom()
    &&& forall|k: Seq<char>| #[trigger] m1.dom().contains(k) ==> m1[k].0 == m2[k].0
}

/// Two scanner states agree but for token positions.
pub open spec fn same_scan(s1: Scan, s2: Scan) -> bool {
    match (s1, s2) {
        (Scan::Running(a), Scan::Running(b)) => a.buf == b.buf && same_bindings(a.map, b.map),
        (Scan::Failed(_), Scan::Failed(_)) => true,
        (Scan::Stuck, Scan::Stuck) => true,
        _ => false,
    }
}

proof fn lemma_scan_prefix(t1: Seq<AttrToken>, t2: Seq<AttrToken>, k: nat)
    requires
        k <= t1.len(),
        k <= t2.len(),
        forall|i: int| 0 <= i < k ==> t1[i] == t2[i],
    ensures
        scan(t1, k) == scan(t2, k),
    decreases k,
{
    if k > 0 {
        lemma_scan_prefix(t1, t2, (k - 1) as nat);
    }
}

proof fn lemma_close_same(
    m1: Map<Seq<char>, Binding>,
    m2: Map<Seq<char>, Binding>,
    buf: Seq<Seq<char>>,
    s1: int,
    e1: int,
    s2: int,
    e2: int,
)
    requires
        same_bindings(m1, m2),
    ensures
        close_group(m1, buf, s1, e1) is Ok <==> close_group(m2, buf, s2, e2) is Ok,
        close_group(m1, buf, s1, e1) matches Ok(n1) ==> (close_group(m2, buf, s2, e2) matches Ok(n2)
            && same_bindings(n1, n2)),
{
    if buf.len() == 1 || buf.len() == 2 {
        let v = if buf.len() == 1 {
            "true"@
        } else {
            buf[1]
        };
        let n1 = m1.insert(buf[0], (v, s1, e1));
        let n2 = m2.insert(buf[0], (v, s2, e2));
        assert(n1.dom() =~= n2.dom());
    }
}

proof fn lemma_scan_token_same(st1: GroupsState, st2: GroupsState, t: AttrToken, i1: int, i2: int)
    requires
        st1.buf == st2.buf,
        same_bindings(st1.map, st2.map),
    ensures
        same_scan(scan_token(st1, t, i1), scan_token(st2, t, i2)),
{
    if let AttrToken::Punct(c) = t {
        if c == ',' {
            lemma_close_same(st1.map, st2.map, st1.buf, st1.start, i1 + 1, st2.start, i2 + 1);
        }
    }
}

proof fn lemma_without_eq_scan(tokens: Seq<AttrToken>, n: nat)
    requires
        n <= tokens.len(),
    ensures
        same_scan(scan(tokens, n), scan(without_eq(tokens.take(n as int)), without_eq(tokens.take(n as int)).len())),
    decreases n,
{
    if n == 0 {
        assert(without_eq(tokens.take(0)) =~= Seq::<AttrToken>::empty());
        assert(same_bindings(Map::empty(), Map::empty()));
    } else {
        let k = (n - 1) as nat;
        lemma_without_eq_scan(tokens, k);
        let p = tokens.take(n as int);
        assert(p.drop_last() =~= tokens.take(k as int));
        let d = without_eq(tokens.take(k as int));
        let t = tokens[k as int];
        assert(p[p.len() - 1] == t);
        if t == AttrToken::Punct('=') {
            assert(without_eq(p) == d);
            match scan(tokens, k) {
                Scan::Running(st) => {
                    assert(scan(tokens, n) == scan_token(st, t, k as int));
                },
                _ => {},
            }
        } else {
            assert(without_eq(p) == d.push(t));
            let dp = d.push(t);
            lemma_scan_prefix(dp, d, d.len());
            assert(scan(dp, dp.len()) == match scan(dp, d.len()) {
                Scan::Running(st) => scan_token(st, dp[d.len() as int], d.len() as int),
                other => other,
            });
            match (scan(tokens, k), scan(d, d.len())) {
                (Scan::Running(st1), Scan::Running(st2)) => {
                    lemma_scan_token_same(st1, st2, t, k as int, d.len() as int);
                },
                _ => {},
            }
        }
    }
}

/// The `=` marks of an argument list carry no meaning: without them the list
/// parses, and gets stuck, exactly when it does with them, and to the same
/// declaration (`idempotent true, auth NOAUTH` parses like
/// `idempotent = true, auth = NOAUTH`); only the token positions in errors
/// differ.
pub proof fn law_eq_marks_are_optional(tokens: Seq<AttrToken>)
    ensures
        scans_fully(tokens) <==> scans_fully(without_eq(tokens)),
        scans_fully(tokens) ==> (parse_spec(tokens) is Ok <==> parse_spec(without_eq(tokens)) is Ok),
        scans_fully(tokens) && parse_spec(tokens) is Ok ==> parse_spec(tokens) == parse_spec(
            without_eq(tokens),
        ),
{
    let n = tokens.len();
    lemma_without_eq_scan(tokens, n);
    assert(tokens.take(n as int) =~= tokens);
    let d = without_eq(tokens);
    match (scan(tokens, n), scan(d, d.len())) {
        (Scan::Running(st1), Scan::Running(st2)) => {
            lemma_close_same(st1.map, st2.map, st1.buf, st1.start, n as int, st2.start, d.len() as int);
            match (
                close_group(st1.map, st1.buf, st1.start, n as int),
                close_group(st2.map, st2.buf, st2.start, d.len() as int),
            ) {
                (Ok(m1), Ok(m2)) => {
                    assert(m1.contains_key("idempotent"@) == m2.contains_key("idempotent"@));
                    assert(m1.contains_key("auth"@) == m2.contains_key("auth"@));
                },
                _ => {},
            }
        },
        _ => {},
    }
}

} // verus!
