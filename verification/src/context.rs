//! The configuration context: flags discovered from the build-time
//! environment, normalized into a queryable mapping.

use vstd::prelude::*;
use vstd::string::StrSliceExecFns;

verus! {

/// Mathematical model of one flag's value: either a single string or an
/// ordered sequence of strings.
pub enum CfgView {
    Single(Seq<char>),
    Multi(Seq<Seq<char>>),
}

/// One conditional-compilation flag's value. A flag with no explicit value
/// (a pure boolean "on" switch) is a `Value` holding the empty string.
pub enum TemplateContextCfg {
    Value(String),
    List(Vec<String>),
}

impl View for TemplateContextCfg {
    type V = CfgView;

    open spec fn view(&self) -> CfgView {
        match self {
            TemplateContextCfg::Value(s) => CfgView::Single(s@),
            TemplateContextCfg::List(items) => CfgView::Multi(items.deep_view()),
        }
    }
}

/// Index of the first comma in `s`, or -1 if `s` holds none.
pub open spec fn first_comma(s: Seq<char>) -> int
    decreases s.len(),
{
    if s.len() == 0 {
        -1
    } else if s[0] == ',' {
        0
    } else if first_comma(s.drop_first()) < 0 {
        -1
    } else {
        first_comma(s.drop_first()) + 1
    }
}

proof fn lemma_first_comma_props(s: Seq<char>)
    ensures
        -1 <= first_comma(s) < s.len(),
        first_comma(s) == -1 ==> forall|k: int| 0 <= k < s.len() ==> s[k] != ',',
        first_comma(s) >= 0 ==> s[first_comma(s)] == ',',
        first_comma(s) >= 0 ==> forall|k: int| 0 <= k < first_comma(s) ==> s[k] != ',',
    decreases s.len(),
{
    if s.len() == 0 {
    } else if s[0] == ',' {
    } else {
        lemma_first_comma_props(s.drop_first());
        assert(forall|k: int| 1 <= k < s.len() ==> s[k] == s.drop_first()[k - 1]);
    }
}

/// `s` split on every comma; without a comma the result is `s` alone, and a
/// comma at either end contributes an empty piece.
pub open spec fn spec_split(s: Seq<char>) -> Seq<Seq<char>>
    decreases s.len(),
    via spec_split_decreases
{
    if first_comma(s) < 0 {
        seq![s]
    } else {
        seq![s.take(first_comma(s))] + spec_split(s.skip(first_comma(s) + 1))
    }
}

#[via_fn]
proof fn spec_split_decreases(s: Seq<char>) {
    lemma_first_comma_props(s);
}

/// Normalized value of one raw environment entry: split on commas into a
/// multi-valued flag when a comma occurs, else the exact string, single-valued.
pub open spec fn spec_cfg_of_env(value: Seq<char>) -> CfgView {
    if value.contains(',') {
        CfgView::Multi(spec_split(value))
    } else {
        CfgView::Single(value)
    }
}

proof fn lemma_first_comma_contains(s: Seq<char>)
    ensures
        s.contains(',') <==> first_comma(s) >= 0,
{
    lemma_first_comma_props(s);
    if first_comma(s) >= 0 {
        assert(s[first_comma(s)] == ',');
    }
}

/// First comma of `s` at index `from` or beyond, if any.
fn find_comma(s: &str, from: usize) -> (r: Option<usize>)
    requires
        from as nat <= s@.len(),
    ensures
        (match r {
            Some(j) => from <= j && (j as nat) < s@.len() && s@[j as int] == ','
                && (forall|k: int| from <= k < j ==> s@[k] != ','),
            None => forall|k: int| from <= k < s@.len() ==> s@[k] != ',',
        }),
{
    let n = s.unicode_len();
    let mut i = from;
    while i < n
        invariant
            from <= i <= n,
            n == s@.len(),
            forall|k: int| from <= k < i ==> s@[k] != ',',
        decreases n - i,
    {
        if s.get_char(i) == ',' {
            return Some(i);
        }
        i = i + 1;
    }
    None
}

impl TemplateContextCfg {
    /// Normalize one raw environment value: a string with a comma becomes an
    /// ordered list of the comma-separated substrings, kept verbatim; any
    /// other string (possibly empty) is a single value.
    pub fn from_env_value(str_value: String) -> (r: Self)
        ensures
            r@ == spec_cfg_of_env(str_value@),
    {
        let n = str_value.as_str().unicode_len();
        match find_comma(str_value.as_str(), 0) {
            None => {
                proof {
                    lemma_first_comma_none(str_value@);
                }
                TemplateContextCfg::Value(str_value)
            },
            Some(first) => {
                proof {
                    assert(str_value@[first as int] == ',');
                    assert(str_value@.contains(','));
                }
                let mut pieces: Vec<String> = Vec::new();
                let mut start: usize = 0;
                proof {
                    assert(str_value@.skip(0) =~= str_value@);
                    assert(pieces.deep_view() =~= Seq::<Seq<char>>::empty());
                    assert(pieces.deep_view() + spec_split(str_value@) =~= spec_split(str_value@));
                }
                loop
                    invariant_except_break
                        start <= n,
                        n == str_value@.len(),
                        spec_split(str_value@) == pieces.deep_view() + spec_split(
                            str_value@.skip(start as int),
                        ),
                    ensures
                        pieces.deep_view() == spec_split(str_value@),
                    decreases n - start,
                {
                    let ghost prefix = pieces.deep_view();
                    let ghost tail = str_value@.skip(start as int);
                    match find_comma(str_value.as_str(), start) {
                        Some(j) => {
                            let piece = str_value.as_str().substring_char(start, j).to_owned();
                            pieces.push(piece);
                            proof {
                                lemma_split_step(str_value@, start as int, j as int);
                                assert(piece@ == tail.take(first_comma(tail)));
                                assert(pieces.deep_view() =~= prefix.push(piece@));
                                assert(prefix.push(piece@) + spec_split(
                                    str_value@.skip(j + 1),
                                ) =~= prefix + (seq![piece@] + spec_split(str_value@.skip(j + 1))));
                            }
                            start = j + 1;
                        },
                        None => {
                            let piece = str_value.as_str().substring_char(start, n).to_owned();
                            pieces.push(piece);
                            proof {
                                lemma_split_last(str_value@, start as int);
                                assert(piece@ == tail);
                                assert(pieces.deep_view() =~= prefix.push(piece@));
                                assert(prefix.push(piece@) =~= prefix + seq![piece@]);
                            }
                            break;
                        },
                    }
                }
                TemplateContextCfg::List(pieces)
            },
        }
    }
}

proof fn lemma_first_comma_none(s: Seq<char>)
    requires
        forall|k: int| 0 <= k < s.len() ==> s[k] != ',',
    ensures
        !s.contains(','),
        spec_split(s) == seq![s],
{
    lemma_first_comma_contains(s);
    lemma_first_comma_props(s);
}

/// Locates `spec_split`'s recursion at the first comma of the suffix
/// `s.skip(start)`: the piece before it is `s.subrange(start, j)` and the
/// rest is the split of `s.skip(j + 1)`.
proof fn lemma_split_step(s: Seq<char>, start: int, j: int)
    requires
        0 <= start <= j < s.len(),
        s[j] == ',',
        forall|k: int| start <= k < j ==> s[k] != ',',
    ensures
        first_comma(s.skip(start)) == j - start,
        s.skip(start).take(j - start) == s.subrange(start, j),
        spec_split(s.skip(start)) == seq![s.subrange(start, j)] + spec_split(s.skip(j + 1)),
{
    let tail = s.skip(start);
    assert(forall|k: int| 0 <= k < tail.len() ==> tail[k] == s[k + start]);
    lemma_first_comma_at(tail, j - start);
    assert(tail.take(j - start) =~= s.subrange(start, j));
    assert(tail.skip(j - start + 1) =~= s.skip(j + 1));
}

/// When no comma remains at or after `start`, the split of the suffix is that
/// suffix alone.
proof fn lemma_split_last(s: Seq<char>, start: int)
    requires
        0 <= start <= s.len(),
        forall|k: int| start <= k < s.len() ==> s[k] != ',',
    ensures
        spec_split(s.skip(start)) == seq![s.skip(start)],
{
    let tail = s.skip(start);
    assert(forall|k: int| 0 <= k < tail.len() ==> tail[k] == s[k + start]);
    lemma_first_comma_none(tail);
}

proof fn lemma_first_comma_at(s: Seq<char>, j: int)
    requires
        0 <= j < s.len(),
        s[j] == ',',
        forall|k: int| 0 <= k < j ==> s[k] != ',',
    ensures
        first_comma(s) == j,
    decreases j,
{
    if j > 0 {
        assert(forall|k: int| 0 <= k < s.drop_first().len() ==> s.drop_first()[k] == s[k + 1]);
        lemma_first_comma_at(s.drop_first(), j - 1);
    }
}

/// What `str::to_lowercase` returns for the characters of its argument; the
/// result depends on those characters alone.
pub uninterp spec fn lower_of(s: Seq<char>) -> Seq<char>;

/// Relies on str::to_lowercase: the lowercase mapping of the argument's
/// characters, named `lower_of`.
#[verifier::external_body]
fn lowercase(s: &str) -> (r: String)
    ensures
        r@ == lower_of(s@),
{
    s.to_lowercase()
}

/// Whether a raw environment variable name carries the configuration marker
/// prefix and is therefore taken into the context.
pub open spec fn spec_is_cfg_var(name: Seq<char>) -> bool {
    name.len() >= 10 && name.take(10) == "CARGO_CFG_"@
}

/// The flag name a marker-prefixed variable contributes: the name after the
/// prefix, lowercased.
pub open spec fn spec_flag_name(name: Seq<char>) -> Seq<char> {
    lower_of(name.skip(10))
}

/// The name after the marker prefix, or `None` when the prefix is absent.
fn strip_cfg_prefix(name: &str) -> (r: Option<&str>)
    ensures
        (match r {
            Some(rest) => spec_is_cfg_var(name@) && rest@ == name@.skip(10),
            None => !spec_is_cfg_var(name@),
        }),
{
    let prefix = "CARGO_CFG_";
    proof {
        reveal_strlit("CARGO_CFG_");
    }
    let n = name.unicode_len();
    if n < 10 {
        return None;
    }
    let mut i: usize = 0;
    while i < 10
        invariant
            0 <= i <= 10,
            n == name@.len(),
            n >= 10,
            prefix@ == "CARGO_CFG_"@,
            prefix@.len() == 10,
            forall|k: int| 0 <= k < i ==> name@[k] == prefix@[k],
        decreases 10 - i,
    {
        if name.get_char(i) != prefix.get_char(i) {
            proof {
                assert(name@.take(10)[i as int] != "CARGO_CFG_"@[i as int]);
            }
            return None;
        }
        i = i + 1;
    }
    proof {
        assert(name@.take(10) =~= "CARGO_CFG_"@);
    }
    let rest = name.substring_char(10, n);
    proof {
        assert(rest@ =~= name@.skip(10));
    }
    Some(rest)
}

/// The mapping an ordered list of flag entries denotes: later entries win.
pub open spec fn entries_to_map(entries: Seq<(String, TemplateContextCfg)>) -> Map<
    Seq<char>,
    CfgView,
>
    decreases entries.len(),
{
    if entries.len() == 0 {
        Map::empty()
    } else {
        entries_to_map(entries.drop_last()).insert(entries.last().0@, entries.last().1@)
    }
}

/// The context that a list of raw environment entries denotes: each
/// marker-prefixed entry contributes its flag name mapped to its normalized
/// value, later entries winning on a name collision.
pub open spec fn spec_context(entries: Seq<(String, String)>) -> Map<Seq<char>, CfgView>
    decreases entries.len(),
{
    if entries.len() == 0 {
        Map::empty()
    } else {
        let rest = spec_context(entries.drop_last());
        let raw = entries.last();
        if spec_is_cfg_var(raw.0@) {
            rest.insert(spec_flag_name(raw.0@), spec_cfg_of_env(raw.1@))
        } else {
            rest
        }
    }
}

/// The full set of flags available during one render: a mapping from flag
/// name to normalized value, built fresh from the environment entries and
/// immutable once constructed.
pub struct LinkerTemplateContext {
    pub cfg: Vec<(String, TemplateContextCfg)>,
}

impl View for LinkerTemplateContext {
    type V = Map<Seq<char>, CfgView>;

    open spec fn view(&self) -> Map<Seq<char>, CfgView> {
        entries_to_map(self.cfg@)
    }
}

impl LinkerTemplateContext {
    /// Build a context from raw environment entries: each variable whose name
    /// carries the configuration marker prefix contributes a flag named by
    /// the rest of its name, lowercased, holding its normalized value.
    pub fn new(entries: Vec<(String, String)>) -> (r: Self)
        ensures
            r@ == spec_context(entries@),
    {
        let mut cfg: Vec<(String, TemplateContextCfg)> = Vec::new();
        let mut i: usize = 0;
        while i < entries.len()
            invariant
                0 <= i <= entries.len(),
                entries_to_map(cfg@) == spec_context(entries@.take(i as int)),
            decreases entries.len() - i,
        {
            let ghost prev = cfg@;
            match strip_cfg_prefix(entries[i].0.as_str()) {
                Some(rest) => {
                    let flag = lowercase(rest);
                    let value = entries[i].1.clone();
                    let normalized = TemplateContextCfg::from_env_value(value);
                    cfg.push((flag, normalized));
                    proof {
                        assert(cfg@.drop_last() =~= prev);
                        assert(entries@.take(i + 1).drop_last() =~= entries@.take(i as int));
                    }
                },
                None => {
                    proof {
                        assert(entries@.take(i + 1).drop_last() =~= entries@.take(i as int));
                    }
                },
            }
            i = i + 1;
        }
        proof {
            assert(entries@.take(entries@.len() as int) =~= entries@);
        }
        LinkerTemplateContext { cfg }
    }

    /// Look a flag up by name: the value the context maps the name to, or
    /// `None` for a flag not present.
    pub fn get(&self, name: &String) -> (r: Option<&TemplateContextCfg>)
        ensures
            (match r {
                Some(value) => self@.contains_key(name@) && value@ == self@[name@],
                None => !self@.contains_key(name@),
            }),
    {
        let mut j = self.cfg.len();
        proof {
            assert(self.cfg@.take(j as int) =~= self.cfg@);
        }
        while j > 0
            invariant
                0 <= j <= self.cfg.len(),
                entries_to_map(self.cfg@).contains_key(name@) == entries_to_map(
                    self.cfg@.take(j as int),
                ).contains_key(name@),
                entries_to_map(self.cfg@).contains_key(name@) ==> entries_to_map(
                    self.cfg@,
                )[name@] == entries_to_map(self.cfg@.take(j as int))[name@],
            decreases j,
        {
            j = j - 1;
            proof {
                assert(self.cfg@.take(j + 1).drop_last() =~= self.cfg@.take(j as int));
                assert(self.cfg@.take(j + 1).last() == self.cfg@[j as int]);
            }
            if self.cfg[j].0 == *name {
                return Some(&self.cfg[j].1);
            }
        }
        proof {
            assert(self.cfg@.take(0) =~= Seq::<(String, TemplateContextCfg)>::empty());
        }
        None
    }
}

} // verus!
