//! The settings store: a key-to-value mapping with unique keys, parsed from
//! and rendered to the persisted line format `key "value"`, one pair per
//! line. Malformed lines are skipped without discarding the rest; a missing
//! file falls back to built-in defaults.

use vstd::prelude::*;
use crate::text::{
    find_char, is_space, lemma_split_at_first_found, lemma_split_at_first_none, split_at_first,
    str_eq, strip_quotes_spec, strip_quotes_str, trim_left, trim_right, trim_spec, trim_str,
};

verus! {

/// One persisted setting: a key and its textual value.
pub struct ConfigEntry {
    pub key: String,
    pub value: String,
}

impl View for ConfigEntry {
    type V = (Seq<char>, Seq<char>);

    open spec fn view(&self) -> (Seq<char>, Seq<char>) {
        (self.key@, self.value@)
    }
}

/// No two pairs share a key.
pub open spec fn distinct_keys(pairs: Seq<(Seq<char>, Seq<char>)>) -> bool {
    forall|i: int, j: int| 0 <= i < j < pairs.len() ==> pairs[i].0 != pairs[j].0
}

/// Whether some pair carries key `k`.
pub open spec fn contains_key(pairs: Seq<(Seq<char>, Seq<char>)>, k: Seq<char>) -> bool {
    exists|i: int| 0 <= i < pairs.len() && pairs[i].0 == k
}

/// The value stored under `k`, if any: first match wins.
pub open spec fn lookup(pairs: Seq<(Seq<char>, Seq<char>)>, k: Seq<char>) -> Option<Seq<char>>
    decreases pairs.len(),
{
    if pairs.len() == 0 {
        Option::None
    } else if pairs[0].0 == k {
        Option::Some(pairs[0].1)
    } else {
        lookup(pairs.skip(1), k)
    }
}

/// Insert-or-replace: an existing pair under `k` is overwritten in place,
/// a fresh key is appended.
pub open spec fn upsert(
    pairs: Seq<(Seq<char>, Seq<char>)>,
    k: Seq<char>,
    v: Seq<char>,
) -> Seq<(Seq<char>, Seq<char>)> {
    if contains_key(pairs, k) {
        Seq::new(
            pairs.len(),
            |i: int|
                if pairs[i].0 == k {
                    (k, v)
                } else {
                    pairs[i]
                },
        )
    } else {
        pairs.push((k, v))
    }
}

/// The built-in defaults used when no settings file can be read.
pub open spec fn default_pairs() -> Seq<(Seq<char>, Seq<char>)> {
    seq![("cl_fullscreen"@, "1"@), ("cl_resolution"@, "1920x1080"@), ("cl_vsync"@, "0"@)]
}

/// One rendered line: the key, a space, and the value wrapped in double
/// quotes, terminated by a newline.
pub open spec fn render_pair(p: (Seq<char>, Seq<char>)) -> Seq<char> {
    p.0 + seq![' ', '"'] + p.1 + seq!['"', '\n']
}

/// The whole rendered file, pairs in store order.
pub open spec fn render_pairs(pairs: Seq<(Seq<char>, Seq<char>)>) -> Seq<char>
    decreases pairs.len(),
{
    if pairs.len() == 0 {
        Seq::empty()
    } else {
        render_pair(pairs[0]) + render_pairs(pairs.skip(1))
    }
}

/// The lines of a text, split at every newline; a trailing newline does not
/// open a final empty line.
pub open spec fn split_lines(t: Seq<char>) -> Seq<Seq<char>>
    decreases t.len(),
{
    if t.len() == 0 {
        Seq::empty()
    } else if t[0] == '\n' {
        seq![Seq::<char>::empty()] + split_lines(t.skip(1))
    } else {
        let rest = split_lines(t.skip(1));
        if rest.len() == 0 {
            seq![seq![t[0]]]
        } else {
            seq![seq![t[0]] + rest[0]] + rest.skip(1)
        }
    }
}

/// What one line contributes: the key before the first space, then the
/// remainder with surrounding whitespace and one pair of quotes removed.
/// A line with no space yields nothing.
pub open spec fn parse_line_spec(line: Seq<char>) -> Option<(Seq<char>, Seq<char>)> {
    match split_at_first(line, ' ') {
        Option::Some((k_raw, rest)) => Option::Some(
            (trim_spec(k_raw), strip_quotes_spec(trim_spec(rest))),
        ),
        Option::None => Option::None,
    }
}

/// Fold one line into the store: a parsable line upserts its pair, a
/// malformed one is skipped.
pub open spec fn apply_line(
    pairs: Seq<(Seq<char>, Seq<char>)>,
    line: Seq<char>,
) -> Seq<(Seq<char>, Seq<char>)> {
    match parse_line_spec(line) {
        Option::Some((k, v)) => upsert(pairs, k, v),
        Option::None => pairs,
    }
}

pub open spec fn parse_fold(
    pairs: Seq<(Seq<char>, Seq<char>)>,
    lines: Seq<Seq<char>>,
) -> Seq<(Seq<char>, Seq<char>)>
    decreases lines.len(),
{
    if lines.len() == 0 {
        pairs
    } else {
        parse_fold(apply_line(pairs, lines[0]), lines.skip(1))
    }
}

/// The pairs a whole settings text yields.
pub open spec fn parse_text(t: Seq<char>) -> Seq<(Seq<char>, Seq<char>)> {
    parse_fold(Seq::empty(), split_lines(t))
}

/// The settings store.
pub struct GameConfig {
    pub entries: Vec<ConfigEntry>,
}

impl View for GameConfig {
    type V = Seq<(Seq<char>, Seq<char>)>;

    open spec fn view(&self) -> Seq<(Seq<char>, Seq<char>)> {
        self.entries@.map_values(|e: ConfigEntry| e@)
    }
}

impl Default for GameConfig {
    /// The built-in defaults: fullscreen on, 1920x1080, vsync off.
    fn default() -> (c: Self)
        ensures
            c.wf(),
            c@ == default_pairs(),
    {
        let mut entries: Vec<ConfigEntry> = Vec::new();
        entries.push(
            ConfigEntry {
                key: String::from_str("cl_fullscreen"),
                value: String::from_str("1"),
            },
        );
        entries.push(
            ConfigEntry {
                key: String::from_str("cl_resolution"),
                value: String::from_str("1920x1080"),
            },
        );
        entries.push(
            ConfigEntry { key: String::from_str("cl_vsync"), value: String::from_str("0") },
        );
        let c = GameConfig { entries };
        proof {
            assert(c@ =~= default_pairs());
            lemma_default_keys_distinct();
        }
        c
    }
}

/// The three default keys differ pairwise.
proof fn lemma_default_keys_distinct()
    ensures
        distinct_keys(default_pairs()),
{
    reveal_strlit("cl_fullscreen");
    reveal_strlit("cl_resolution");
    reveal_strlit("cl_vsync");
    assert("cl_fullscreen"@.len() == 13);
    assert("cl_resolution"@.len() == 13);
    assert("cl_vsync"@.len() == 8);
    assert("cl_fullscreen"@[3] == 'f');
    assert("cl_resolution"@[3] == 'r');
}

impl GameConfig {
    /// Keys are unique in the store.
    pub open spec fn wf(self) -> bool {
        distinct_keys(self@)
    }

    /// An empty store.
    pub fn new() -> (c: Self)
        ensures
            c.wf(),
            c@ == Seq::<(Seq<char>, Seq<char>)>::empty(),
    {
        let c = GameConfig { entries: Vec::new() };
        proof {
            assert(c@ =~= Seq::<(Seq<char>, Seq<char>)>::empty());
        }
        c
    }

    /// Index of the entry holding `key`, if any.
    fn find_key(&self, key: &str) -> (r: Option<usize>)
        ensures
            match r {
                Option::Some(i) => i < self@.len() && self@[i as int].0 == key@,
                Option::None => !contains_key(self@, key@),
            },
    {
        let n = self.entries.len();
        for i in 0..n
            invariant
                n == self.entries@.len(),
                forall|j: int| 0 <= j < i ==> self@[j].0 != key@,
        {
            if str_eq(self.entries[i].key.as_str(), key) {
                return Some(i);
            }
        }
        proof {
            assert(forall|j: int| 0 <= j < self@.len() ==> self@[j].0 != key@);
        }
        None
    }

    /// The value stored under `key`, if any.
    pub fn get<'a>(&'a self, key: &str) -> (r: Option<&'a String>)
        ensures
            match r {
                Option::Some(v) => lookup(self@, key@) == Option::Some(v@),
                Option::None => lookup(self@, key@) is None,
            },
    {
        let ghost target = lookup(self@, key@);
        proof {
            assert(self@.skip(0) =~= self@);
        }
        let n = self.entries.len();
        for i in 0..n
            invariant
                n == self.entries@.len(),
                target == lookup(self@, key@),
                lookup(self@.skip(i as int), key@) == target,
        {
            proof {
                assert(self@.skip(i as int).skip(1) =~= self@.skip(i + 1));
            }
            if str_eq(self.entries[i].key.as_str(), key) {
                proof {
                    assert(self@.skip(i as int)[0] == self@[i as int]);
                }
                return Some(&self.entries[i].value);
            }
        }
        proof {
            assert(self@.skip(n as int) =~= Seq::<(Seq<char>, Seq<char>)>::empty());
        }
        None
    }

    /// Store `value` under `key`, replacing any previous value.
    pub fn set(&mut self, key: String, value: String)
        requires
            old(self).wf(),
        ensures
            final(self).wf(),
            final(self)@ == upsert(old(self)@, key@, value@),
    {
        let found = self.find_key(key.as_str());
        match found {
            Option::Some(i) => {
                let ghost pre = self@;
                self.entries[i] = ConfigEntry { key, value };
                proof {
                    assert(contains_key(pre, key@));
                    assert forall|j: int| 0 <= j < self@.len() implies self@[j] == upsert(
                        pre,
                        key@,
                        value@,
                    )[j] by {
                        if j != i as int {
                            assert(pre[j].0 != key@);
                        }
                    }
                    assert(self@ =~= upsert(pre, key@, value@));
                }
            },
            Option::None => {
                let ghost pre = self@;
                self.entries.push(ConfigEntry { key, value });
                proof {
                    assert(self@ =~= pre.push((key@, value@)));
                }
            },
        }
    }

    /// Parse one line of the persisted format. The key is everything before
    /// the first space; the value is the rest, whitespace-trimmed and with
    /// one pair of surrounding quotes removed. A line with no space parses
    /// to nothing.
    pub fn parse_line(line: &str) -> (r: Option<(String, String)>)
        ensures
            match r {
                Option::Some(kv) => parse_line_spec(line@) == Option::Some((kv.0@, kv.1@)),
                Option::None => parse_line_spec(line@) is None,
            },
    {
        let n = line.unicode_len();
        match find_char(line, ' ') {
            Option::None => {
                proof {
                    lemma_split_at_first_none(line@, ' ');
                }
                None
            },
            Option::Some(i) => {
                proof {
                    lemma_split_at_first_found(line@, ' ', i as int);
                    assert(line@.subrange(0, i as int) =~= line@.take(i as int));
                    assert(line@.subrange(i + 1, n as int) =~= line@.skip(i + 1));
                }
                let k_raw = line.substring_char(0, i);
                let rest = line.substring_char(i + 1, n);
                let k = trim_str(k_raw);
                let v = strip_quotes_str(trim_str(rest));
                Some((String::from_str(k), String::from_str(v)))
            },
        }
    }

    /// Fold one line into the store.
    fn absorb_line(&mut self, line: &str)
        requires
            old(self).wf(),
        ensures
            final(self).wf(),
            final(self)@ == apply_line(old(self)@, line@),
    {
        match Self::parse_line(line) {
            Option::Some((k, v)) => self.set(k, v),
            Option::None => {},
        }
    }

    /// Parse a whole settings text, line by line: later duplicates of a key
    /// replace earlier ones, malformed lines are skipped.
    pub fn parse(text: &str) -> (c: Self)
        ensures
            c.wf(),
            c@ == parse_text(text@),
    {
        let mut cfg = GameConfig::new();
        proof {
            assert(text@.skip(0) =~= text@);
        }
        let n = text.unicode_len();
        let mut start: usize = 0;
        for i in 0..n
            invariant
                n == text@.len(),
                start <= i,
                i <= n,
                cfg.wf(),
                forall|j: int| start <= j < i ==> text@[j] != '\n',
                parse_fold(cfg@, split_lines(text@.skip(start as int))) == parse_text(text@),
        {
            if text.get_char(i) == '\n' {
                let line = text.substring_char(start, i);
                proof {
                    assert(text@.skip(start as int) =~= line@ + seq!['\n'] + text@.skip(i + 1));
                    lemma_split_lines_at_newline(line@, text@.skip(i + 1));
                    let lines = split_lines(text@.skip(start as int));
                    assert(lines[0] == line@);
                    assert(lines.skip(1) =~= split_lines(text@.skip(i + 1)));
                }
                cfg.absorb_line(line);
                start = i + 1;
            }
        }
        if start < n {
            let line = text.substring_char(start, n);
            let ghost pre = cfg@;
            proof {
                assert(text@.skip(start as int) =~= line@);
                lemma_split_lines_single(line@);
                assert(split_lines(text@.skip(start as int)) == seq![line@]);
            }
            cfg.absorb_line(line);
            proof {
                let lines = seq![line@];
                assert(lines.len() == 1);
                assert(lines[0] == line@);
                assert(parse_fold(pre, lines) == parse_fold(
                    apply_line(pre, line@),
                    lines.skip(1),
                ));
                assert(lines.skip(1) =~= Seq::<Seq<char>>::empty());
                assert(parse_fold(cfg@, Seq::<Seq<char>>::empty()) == cfg@);
            }
        } else {
            proof {
                assert(text@.skip(start as int) =~= Seq::<char>::empty());
                assert(split_lines(text@.skip(start as int)) == Seq::<Seq<char>>::empty());
                assert(parse_fold(cfg@, Seq::<Seq<char>>::empty()) == cfg@);
            }
        }
        cfg
    }

    /// Build the store from the persisted file's contents, or from the
    /// built-in defaults when the file was absent or unreadable.
    pub fn load(data: Option<String>) -> (c: Self)
        ensures
            c.wf(),
            match data {
                Option::Some(text) => c@ == parse_text(text@),
                Option::None => c@ == default_pairs(),
            },
    {
        match data {
            Option::Some(text) => Self::parse(text.as_str()),
            Option::None => Self::default(),
        }
    }

    /// Render the whole store in the persisted format, one `key "value"`
    /// line per pair. The caller overwrites the settings file with the
    /// result in one piece.
    pub fn save(&self) -> (out: String)
        ensures
            out@ == render_pairs(self@),
    {
        let mut out = String::new();
        proof {
            assert(self@.skip(0) =~= self@);
            assert(out@ + render_pairs(self@) =~= render_pairs(self@));
        }
        let n = self.entries.len();
        for i in 0..n
            invariant
                n == self.entries@.len(),
                out@ + render_pairs(self@.skip(i as int)) == render_pairs(self@),
        {
            let ghost out0 = out@;
            proof {
                reveal_strlit(" \"");
                reveal_strlit("\"\n");
                assert(" \""@ =~= seq![' ', '"']);
                assert("\"\n"@ =~= seq!['"', '\n']);
                assert(self@.skip(i as int).skip(1) =~= self@.skip(i + 1));
                assert(self@.skip(i as int)[0] == self@[i as int]);
            }
            out.append(self.entries[i].key.as_str());
            out.append(" \"");
            out.append(self.entries[i].value.as_str());
            out.append("\"\n");
            proof {
                assert(out@ =~= out0 + render_pair(self@[i as int]));
                assert(render_pairs(self@.skip(i as int)) == render_pair(self@[i as int])
                    + render_pairs(self@.skip(i + 1)));
                assert(out@ + render_pairs(self@.skip(i + 1)) =~= out0 + render_pairs(
                    self@.skip(i as int),
                ));
            }
        }
        proof {
            assert(self@.skip(n as int) =~= Seq::<(Seq<char>, Seq<char>)>::empty());
            assert(out@ =~= render_pairs(self@));
        }
        out
    }
}

/// Splitting a text that starts with a newline-terminated, newline-free
/// line yields that line followed by the remaining text's lines.
proof fn lemma_split_lines_at_newline(cur: Seq<char>, rest: Seq<char>)
    requires
        forall|i: int| 0 <= i < cur.len() ==> cur[i] != '\n',
    ensures
        split_lines(cur + seq!['\n'] + rest) == seq![cur] + split_lines(rest),
    decreases cur.len(),
{
    let t = cur + seq!['\n'] + rest;
    if cur.len() == 0 {
        assert(t.len() > 0);
        assert(t[0] == '\n');
        assert(t.skip(1) =~= rest);
        assert(split_lines(t) == seq![Seq::<char>::empty()] + split_lines(rest));
        assert(cur =~= Seq::<char>::empty());
        assert(seq![cur] == seq![Seq::<char>::empty()]);
    } else {
        let cur1 = cur.skip(1);
        lemma_split_lines_at_newline(cur1, rest);
        assert(t[0] == cur[0]);
        assert(t[0] != '\n');
        assert(t.skip(1) =~= cur1 + seq!['\n'] + rest);
        let inner = split_lines(t.skip(1));
        assert(inner == seq![cur1] + split_lines(rest));
        assert(inner.len() > 0);
        assert(inner[0] == cur1);
        assert(split_lines(t) == seq![seq![t[0]] + inner[0]] + inner.skip(1));
        assert(seq![t[0]] + inner[0] =~= cur);
        assert(seq![seq![t[0]] + inner[0]] == seq![cur]);
        assert(inner.skip(1) =~= split_lines(rest));
    }
}

/// A key that survives the line format unchanged: no space (it would move
/// the split) and no newline (it would break the line) anywhere, and no
/// whitespace at either end (the parser trims the key).
pub open spec fn clean_key(k: Seq<char>) -> bool {
    &&& forall|i: int| 0 <= i < k.len() ==> k[i] != ' ' && k[i] != '\n'
    &&& k.len() > 0 ==> !is_space(k[0]) && !is_space(k[k.len() - 1])
}

/// A value that survives quoting unchanged: no double quote and no newline.
pub open spec fn clean_value(v: Seq<char>) -> bool {
    forall|i: int| 0 <= i < v.len() ==> v[i] != '"' && v[i] != '\n'
}

pub open spec fn clean_pairs(pairs: Seq<(Seq<char>, Seq<char>)>) -> bool {
    forall|i: int|
        0 <= i < pairs.len() ==> clean_key(#[trigger] pairs[i].0) && clean_value(pairs[i].1)
}

/// Parsing a rendered line (without its terminating newline) recovers the
/// pair exactly.
proof fn lemma_parse_line_of_render(k: Seq<char>, v: Seq<char>)
    requires
        clean_key(k),
        clean_value(v),
    ensures
        parse_line_spec(k + seq![' ', '"'] + v + seq!['"']) == Option::Some((k, v)),
{
    let line = k + seq![' ', '"'] + v + seq!['"'];
    let rest = seq!['"'] + v + seq!['"'];
    assert(line.len() == k.len() + v.len() + 3);
    assert(line[k.len() as int] == ' ');
    assert(forall|j: int| 0 <= j < k.len() ==> line[j] == k[j]);
    lemma_split_at_first_found(line, ' ', k.len() as int);
    assert(line.take(k.len() as int) =~= k);
    assert(line.skip(k.len() as int + 1) =~= rest);
    assert(trim_left(k) == k);
    assert(trim_right(k) == k);
    assert(rest[0] == '"');
    assert(rest.last() == '"');
    assert(trim_left(rest) == rest);
    assert(trim_right(rest) == rest);
    let a = rest.skip(1);
    assert(a =~= v + seq!['"']);
    assert(a.len() > 0 && a.last() == '"');
    assert(a.drop_last() =~= v);
}

/// Folding the lines of a rendered store onto `acc` appends exactly the
/// rendered pairs, as long as no key repeats.
proof fn lemma_parse_of_render(
    acc: Seq<(Seq<char>, Seq<char>)>,
    pairs: Seq<(Seq<char>, Seq<char>)>,
)
    requires
        distinct_keys(acc + pairs),
        clean_pairs(pairs),
    ensures
        parse_fold(acc, split_lines(render_pairs(pairs))) == acc + pairs,
    decreases pairs.len(),
{
    if pairs.len() == 0 {
        assert(render_pairs(pairs) == Seq::<char>::empty());
        assert(split_lines(Seq::<char>::empty()) == Seq::<Seq<char>>::empty());
        assert(parse_fold(acc, Seq::<Seq<char>>::empty()) == acc);
        assert(acc + pairs =~= acc);
    } else {
        let p0 = pairs[0];
        let k = p0.0;
        let v = p0.1;
        assert(clean_key(k) && clean_value(v));
        let line0 = k + seq![' ', '"'] + v + seq!['"'];
        let rest_text = render_pairs(pairs.skip(1));
        assert(render_pairs(pairs) == render_pair(p0) + rest_text);
        assert(render_pair(p0) =~= line0 + seq!['\n']);
        assert(render_pairs(pairs) =~= line0 + seq!['\n'] + rest_text);
        assert forall|i: int| 0 <= i < line0.len() implies line0[i] != '\n' by {
            if i < k.len() {
                assert(line0[i] == k[i]);
            } else if i < k.len() + 2 {
            } else if i < k.len() + 2 + v.len() {
                assert(line0[i] == v[i - k.len() - 2]);
            } else {
                assert(line0[i] == '"');
            }
        }
        lemma_split_lines_at_newline(line0, rest_text);
        assert(split_lines(render_pairs(pairs)) == seq![line0] + split_lines(rest_text));
        lemma_parse_line_of_render(k, v);
        assert(!contains_key(acc, k)) by {
            assert((acc + pairs)[acc.len() as int] == p0);
            assert forall|i: int| 0 <= i < acc.len() implies acc[i].0 != k by {
                assert((acc + pairs)[i] == acc[i]);
            }
        }
        assert(apply_line(acc, line0) == acc.push((k, v)));
        assert((k, v) == p0);
        let acc2 = acc.push(p0);
        assert(acc2 + pairs.skip(1) =~= acc + pairs);
        assert(clean_pairs(pairs.skip(1)));
        lemma_parse_of_render(acc2, pairs.skip(1));
        let lines = seq![line0] + split_lines(rest_text);
        assert(lines[0] == line0);
        assert(lines.skip(1) =~= split_lines(rest_text));
        assert(parse_fold(acc, lines) == parse_fold(apply_line(acc, line0), lines.skip(1)));
        assert(parse_fold(acc, lines) == acc2 + pairs.skip(1));
        assert(acc2 + pairs.skip(1) == acc + pairs);
    }
}

/// Round trip: saving a store and loading the result reproduces its pairs
/// exactly — so a second save writes the same text — for every store whose
/// keys hold no space, newline or edge whitespace and whose values hold no
/// double quote or newline.
pub proof fn lemma_save_load_round_trip(cfg: GameConfig)
    requires
        cfg.wf(),
        clean_pairs(cfg@),
    ensures
        parse_text(render_pairs(cfg@)) == cfg@,
        render_pairs(parse_text(render_pairs(cfg@))) == render_pairs(cfg@),
{
    let acc = Seq::<(Seq<char>, Seq<char>)>::empty();
    assert(acc + cfg@ =~= cfg@);
    lemma_parse_of_render(acc, cfg@);
}

/// A non-empty newline-free text is exactly one line.
proof fn lemma_split_lines_single(cur: Seq<char>)
    requires
        cur.len() > 0,
        forall|i: int| 0 <= i < cur.len() ==> cur[i] != '\n',
    ensures
        split_lines(cur) == seq![cur],
    decreases cur.len(),
{
    if cur.len() == 1 {
        assert(cur.skip(1).len() == 0);
        assert(split_lines(cur.skip(1)) == Seq::<Seq<char>>::empty());
        assert(split_lines(cur) == seq![seq![cur[0]]]);
        assert(seq![cur[0]] =~= cur);
        assert(seq![seq![cur[0]]] == seq![cur]);
    } else {
        lemma_split_lines_single(cur.skip(1));
        let inner = split_lines(cur.skip(1));
        assert(inner == seq![cur.skip(1)]);
        assert(inner.len() > 0);
        assert(split_lines(cur) == seq![seq![cur[0]] + inner[0]] + inner.skip(1));
        assert(seq![cur[0]] + cur.skip(1) =~= cur);
        assert(seq![seq![cur[0]] + inner[0]] == seq![cur]);
        assert(inner.skip(1) =~= Seq::<Seq<char>>::empty());
        assert(seq![cur] + Seq::<Seq<char>>::empty() =~= seq![cur]);
    }
}

} // verus!
