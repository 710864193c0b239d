//! The resolved runtime configuration, built from a located
//! configuration file.
//!
//! The configuration file is line-based text: each line is blank
//! (spaces only), a comment (first character `#`), or a setting
//! `key=value`, where the key consists of lower-case letters, digits
//! and underscores.  When one key is set on several lines, the last
//! line wins.  A file with any other line is malformed; parsing never
//! fails over to the caller, it marks the configuration invalid
//! instead, and callers must check [`Config::is_valid`] before use.
//!
//! Recognized settings: `baseurl` (required, must be non-empty),
//! `username` and `password` (optional).  Unknown keys are accepted
//! and ignored.

use vstd::prelude::*;

verus! {

use crate::discover::ConfigFile;
use crate::text::{chars_eq_str, chars_of};

/// Spacing characters: a line of nothing else is blank.
pub open spec fn is_space(c: char) -> bool {
    c == ' ' || c == '\t' || c == '\r'
}

/// A key character: a lower-case letter, a digit or an underscore.
pub open spec fn key_char(c: char) -> bool {
    ('a' <= c && c <= 'z') || ('0' <= c && c <= '9') || c == '_'
}

/// The lines of `s`, split on `'\n'`.  Text with no line break is one
/// line; every `'\n'` ends a line, and the text after the last one
/// (possibly empty) is the final line.
pub open spec fn split_lines(s: Seq<char>) -> Seq<Seq<char>>
    decreases s.len(),
{
    if s.len() == 0 {
        seq![Seq::<char>::empty()]
    } else if s[0] == '\n' {
        seq![Seq::<char>::empty()] + split_lines(s.drop_first())
    } else {
        let rest = split_lines(s.drop_first());
        seq![seq![s[0]] + rest[0]] + rest.drop_first()
    }
}

pub proof fn lemma_split_lines_len(s: Seq<char>)
    ensures
        split_lines(s).len() >= 1,
    decreases s.len(),
{
    if s.len() == 0 {
    } else {
        lemma_split_lines_len(s.drop_first());
    }
}

/// A line of spacing characters only.
pub open spec fn is_blank(l: Seq<char>) -> bool {
    forall|i: int| 0 <= i < l.len() ==> is_space(l[i])
}

/// A comment line.
pub open spec fn is_comment(l: Seq<char>) -> bool {
    l.len() > 0 && l[0] == '#'
}

/// The index of the first `'='` in `l`, or -1 when there is none.
pub open spec fn eq_index(l: Seq<char>) -> int
    decreases l.len(),
{
    if l.len() == 0 {
        -1
    } else if l[0] == '=' {
        0
    } else {
        let r = eq_index(l.drop_first());
        if r < 0 {
            -1
        } else {
            1 + r
        }
    }
}

pub proof fn lemma_eq_index(l: Seq<char>)
    ensures
        eq_index(l) == -1 ==> forall|i: int| 0 <= i < l.len() ==> l[i] != '=',
        eq_index(l) >= 0 ==> eq_index(l) < l.len() && l[eq_index(l)] == '=' && forall|i: int|
            0 <= i < eq_index(l) ==> l[i] != '=',
    decreases l.len(),
{
    if l.len() == 0 {
    } else if l[0] == '=' {
    } else {
        lemma_eq_index(l.drop_first());
        if eq_index(l) == -1 {
            assert forall|i: int| 0 <= i < l.len() implies l[i] != '=' by {
                if i > 0 {
                    assert(l.drop_first()[i - 1] == l[i]);
                }
            }
        } else {
            assert forall|i: int| 0 <= i < eq_index(l) implies l[i] != '=' by {
                if i > 0 {
                    assert(l.drop_first()[i - 1] == l[i]);
                }
            }
        }
    }
}

/// A well-formed setting key.
pub open spec fn wf_key(k: Seq<char>) -> bool {
    k.len() > 0 && forall|i: int| 0 <= i < k.len() ==> key_char(k[i])
}

/// The setting a line carries: the text before its first `'='` as the
/// key and the rest as the value, provided the key is well-formed.
pub open spec fn line_setting(l: Seq<char>) -> Option<(Seq<char>, Seq<char>)> {
    let e = eq_index(l);
    if e < 0 {
        None
    } else {
        let k = l.take(e);
        let v = l.skip(e + 1);
        if wf_key(k) {
            Some((k, v))
        } else {
            None
        }
    }
}

/// A line the configuration grammar accepts.
pub open spec fn line_ok(l: Seq<char>) -> bool {
    is_blank(l) || is_comment(l) || line_setting(l) is Some
}

/// Whether every line is accepted.
pub open spec fn lines_ok(ls: Seq<Seq<char>>) -> bool {
    forall|i: int| 0 <= i < ls.len() ==> line_ok(ls[i])
}

/// The value of `key` among the lines; the last setting of it wins.
pub open spec fn lookup(ls: Seq<Seq<char>>, key: Seq<char>) -> Option<Seq<char>>
    decreases ls.len(),
{
    if ls.len() == 0 {
        None
    } else {
        match line_setting(ls.last()) {
            Some(kv) => if kv.0 == key {
                Some(kv.1)
            } else {
                lookup(ls.drop_last(), key)
            },
            None => lookup(ls.drop_last(), key),
        }
    }
}

proof fn lemma_lookup_step(ls: Seq<Seq<char>>, key: Seq<char>)
    requires
        ls.len() > 0,
    ensures
        line_setting(ls.last()) is None ==> lookup(ls, key) == lookup(ls.drop_last(), key),
        line_setting(ls.last()) matches Some(kv) ==> lookup(ls, key) == (if kv.0 == key {
            Some(kv.1)
        } else {
            lookup(ls.drop_last(), key)
        }),
{
}

/// Whether the whole text parses: every line is blank, a comment or a
/// well-formed setting.
pub open spec fn contents_wf(s: Seq<char>) -> bool {
    lines_ok(split_lines(s))
}

/// The value a parsed text gives to `key`.
pub open spec fn setting(s: Seq<char>, key: Seq<char>) -> Option<Seq<char>> {
    lookup(split_lines(s), key)
}

/// A valid configuration text: it parses, and it sets a non-empty
/// `baseurl`.
pub open spec fn contents_valid(s: Seq<char>) -> bool {
    contents_wf(s) && (setting(s, "baseurl"@) matches Some(v) && v.len() > 0)
}

/// The characters of an optional setting value.
pub open spec fn opt_chars(o: Option<Vec<char>>) -> Option<Seq<char>> {
    match o {
        Some(v) => Some(v@),
        None => None,
    }
}

/// The views of a vector of lines.
pub open spec fn lines_view(ls: Seq<Vec<char>>) -> Seq<Seq<char>> {
    ls.map_values(|v: Vec<char>| v@)
}

/// The lines of `s`, split on `'\n'`.
fn split_lines_exec(s: &Vec<char>) -> (r: Vec<Vec<char>>)
    ensures
        lines_view(r@) == split_lines(s@),
{
    let mut done: Vec<Vec<char>> = Vec::new();
    let mut cur: Vec<char> = Vec::new();
    let mut i: usize = 0;
    proof {
        lemma_split_lines_len(s@);
        assert(s@.skip(0) =~= s@);
        assert(cur@ + split_lines(s@)[0] =~= split_lines(s@)[0]);
        assert(split_lines(s@) =~~= lines_view(done@) + seq![cur@ + split_lines(s@)[0]]
            + split_lines(s@).drop_first());
    }
    while i < s.len()
        invariant
            i <= s@.len(),
            split_lines(s@.skip(i as int)).len() >= 1,
            split_lines(s@) == lines_view(done@) + seq![cur@ + split_lines(s@.skip(i as int))[0]]
                + split_lines(s@.skip(i as int)).drop_first(),
        decreases s@.len() - i,
    {
        let ghost sp_i = split_lines(s@.skip(i as int));
        let ghost sp_n = split_lines(s@.skip(i as int + 1));
        proof {
            lemma_split_lines_len(s@.skip(i as int + 1));
            assert(s@.skip(i as int)[0] == s@[i as int]);
            assert(s@.skip(i as int).drop_first() =~= s@.skip(i as int + 1));
        }
        let c = s[i];
        if c == '\n' {
            let ghost old_done = done@;
            let ghost old_cur = cur@;
            done.push(cur);
            cur = Vec::new();
            proof {
                assert(sp_i =~~= seq![Seq::<char>::empty()] + sp_n);
                assert(lines_view(done@) =~= lines_view(old_done) + seq![old_cur]);
                assert(old_cur + sp_i[0] =~= old_cur);
                assert(cur@ + sp_n[0] =~= sp_n[0]);
                assert(sp_i.drop_first() =~= sp_n);
                assert(split_lines(s@) =~~= lines_view(done@) + seq![cur@ + sp_n[0]]
                    + sp_n.drop_first());
            }
        } else {
            let ghost old_cur = cur@;
            cur.push(c);
            proof {
                assert(sp_i =~~= seq![seq![c] + sp_n[0]] + sp_n.drop_first());
                assert(cur@ + sp_n[0] =~= old_cur + (seq![c] + sp_n[0]));
                assert(split_lines(s@) =~~= lines_view(done@) + seq![cur@ + sp_n[0]]
                    + sp_n.drop_first());
            }
        }
        i = i + 1;
    }
    let ghost old_done = done@;
    let ghost old_cur = cur@;
    proof {
        assert(s@.skip(i as int).len() == 0);
        assert(split_lines(s@.skip(i as int)) =~~= seq![Seq::<char>::empty()]);
        assert(old_cur + Seq::<char>::empty() =~= old_cur);
    }
    done.push(cur);
    proof {
        assert(lines_view(done@) =~= lines_view(old_done) + seq![old_cur]);
        assert(lines_view(done@) =~~= split_lines(s@));
    }
    done
}

/// Whether the line is blank.
fn is_blank_exec(l: &Vec<char>) -> (r: bool)
    ensures
        r == is_blank(l@),
{
    let mut i: usize = 0;
    while i < l.len()
        invariant
            i <= l@.len(),
            forall|j: int| 0 <= j < i ==> is_space(l@[j]),
        decreases l@.len() - i,
    {
        let c = l[i];
        if !(c == ' ' || c == '\t' || c == '\r') {
            assert(!is_space(l@[i as int]));
            return false;
        }
        i = i + 1;
    }
    true
}

/// The index of the first `'='` in the line.
fn eq_index_exec(l: &Vec<char>) -> (r: Option<usize>)
    ensures
        match r {
            Some(e) => e < l@.len() && eq_index(l@) == e,
            None => eq_index(l@) == -1,
        },
{
    assert(l@.skip(0) =~= l@);
    let mut i: usize = 0;
    loop
        invariant
            i <= l@.len(),
            eq_index(l@) == (if eq_index(l@.skip(i as int)) < 0 {
                -1int
            } else {
                i + eq_index(l@.skip(i as int))
            }),
        decreases l@.len() - i,
    {
        if i == l.len() {
            assert(l@.skip(i as int).len() == 0);
            return None;
        }
        let c = l[i];
        assert(l@.skip(i as int)[0] == l@[i as int]);
        if c == '=' {
            assert(eq_index(l@.skip(i as int)) == 0);
            return Some(i);
        }
        assert(l@.skip(i as int).drop_first() =~= l@.skip(i as int + 1));
        i = i + 1;
    }
}

/// The characters of `l` from `a` up to `b`.
fn sub_chars(l: &Vec<char>, a: usize, b: usize) -> (r: Vec<char>)
    requires
        a <= b <= l@.len(),
    ensures
        r@ == l@.subrange(a as int, b as int),
{
    let mut r: Vec<char> = Vec::new();
    let mut i: usize = a;
    while i < b
        invariant
            a <= i <= b <= l@.len(),
            r@ =~= l@.subrange(a as int, i as int),
        decreases b - i,
    {
        r.push(l[i]);
        i = i + 1;
    }
    assert(r@ =~= l@.subrange(a as int, b as int));
    r
}

/// The setting the line carries, if it is a well-formed `key=value`
/// line.
fn line_setting_exec(l: &Vec<char>) -> (r: Option<(Vec<char>, Vec<char>)>)
    ensures
        match r {
            Some(kv) => line_setting(l@) == Some((kv.0@, kv.1@)),
            None => line_setting(l@) is None,
        },
{
    match eq_index_exec(l) {
        None => None,
        Some(e) => {
            if e == 0 {
                return None;
            }
            let mut i: usize = 0;
            while i < e
                invariant
                    i <= e < l@.len(),
                    eq_index(l@) == e,
                    forall|j: int| 0 <= j < i ==> key_char(l@[j]),
                decreases e - i,
            {
                let c = l[i];
                if !(('a' <= c && c <= 'z') || ('0' <= c && c <= '9') || c == '_') {
                    assert(l@.take(e as int)[i as int] == l@[i as int]);
                    assert(!wf_key(l@.take(e as int)));
                    return None;
                }
                i = i + 1;
            }
            let n = l.len();
            assert(e < n);
            let k = sub_chars(l, 0, e);
            let v = sub_chars(l, e + 1, n);
            proof {
                assert(k@ =~= l@.take(e as int));
                assert(v@ =~= l@.skip(e + 1));
                assert forall|j: int| 0 <= j < k@.len() implies key_char(k@[j]) by {
                    assert(k@[j] == l@[j]);
                }
                assert(wf_key(l@.take(e as int)));
            }
            Some((k, v))
        },
    }
}

/// The resolved, mutable runtime configuration shared by the
/// subcommand handlers.  Setting values are kept as character vectors.
pub struct Config {
    pub baseurl: Vec<char>,
    pub username: Option<Vec<char>>,
    pub password: Option<Vec<char>>,
    pub valid: bool,
    pub dry_run: bool,
}

impl Config {
    /// Parses a located configuration file.  Parsing failures are not
    /// propagated: the returned configuration reports them through
    /// [`Config::is_valid`], which callers must check before use.
    pub fn from_configfile(cf: ConfigFile) -> (c: Config)
        ensures
            c.valid == contents_valid(cf.contents@),
            c.dry_run == false,
            c.valid ==> Some(c.baseurl@) == setting(cf.contents@, "baseurl"@),
            c.valid ==> opt_chars(c.username) == setting(cf.contents@, "username"@),
            c.valid ==> opt_chars(c.password) == setting(cf.contents@, "password"@),
            !c.valid ==> c.baseurl@ == Seq::<char>::empty() && c.username is None
                && c.password is None,
    {
        let chars = chars_of(cf.contents.as_str());
        let lines = split_lines_exec(&chars);
        let ghost lv = split_lines(cf.contents@);
        proof {
            assert(lines_view(lines@) == lv);
            assert(lv.take(0) =~= Seq::<Seq<char>>::empty());
        }
        let mut ok: bool = true;
        let mut baseurl: Option<Vec<char>> = None;
        let mut username: Option<Vec<char>> = None;
        let mut password: Option<Vec<char>> = None;
        let mut i: usize = 0;
        while i < lines.len()
            invariant
                i <= lines@.len(),
                lv == split_lines(cf.contents@),
                lines_view(lines@) == lv,
                lv.len() == lines@.len(),
                ok == lines_ok(lv.take(i as int)),
                opt_chars(baseurl) == lookup(lv.take(i as int), "baseurl"@),
                opt_chars(username) == lookup(lv.take(i as int), "username"@),
                opt_chars(password) == lookup(lv.take(i as int), "password"@),
            decreases lines@.len() - i,
        {
            let ghost prev = lv.take(i as int);
            let ghost curl = lv[i as int];
            proof {
                assert(lines_view(lines@)[i as int] == lines@[i as int]@);
                assert(lv.take(i as int + 1).drop_last() =~= prev);
                assert(lv.take(i as int + 1).last() == curl);
                lemma_lookup_step(lv.take(i as int + 1), "baseurl"@);
                lemma_lookup_step(lv.take(i as int + 1), "username"@);
                lemma_lookup_step(lv.take(i as int + 1), "password"@);
            }
            let l = &lines[i];
            let line_is_ok: bool;
            if is_blank_exec(l) {
                proof {
                    lemma_eq_index(curl);
                    if eq_index(curl) >= 0 {
                        assert(is_space(curl[eq_index(curl)]));
                    }
                    assert(line_setting(curl) is None);
                }
                line_is_ok = true;
            } else if l.len() > 0 && l[0] == '#' {
                proof {
                    lemma_eq_index(curl);
                    if eq_index(curl) >= 0 {
                        assert(curl[0] != '=');
                        assert(eq_index(curl) > 0);
                        assert(curl.take(eq_index(curl))[0] == curl[0]);
                        assert(!wf_key(curl.take(eq_index(curl))));
                    }
                    assert(line_setting(curl) is None);
                }
                line_is_ok = true;
            } else {
                match line_setting_exec(l) {
                    None => {
                        proof {
                            assert(!is_blank(curl));
                            assert(!is_comment(curl));
                            assert(!line_ok(curl));
                        }
                        line_is_ok = false;
                    },
                    Some((k, v)) => {
                        line_is_ok = true;
                        proof {
                            broadcast use vstd::string::group_string_axioms;

                            reveal_strlit("baseurl");
                            reveal_strlit("username");
                            reveal_strlit("password");
                            assert("baseurl"@.len() == 7);
                            assert("username"@.len() == 8);
                            assert("password"@.len() == 8);
                            assert("username"@[0] == 'u');
                            assert("password"@[0] == 'p');
                            assert(line_setting(curl) == Some((k@, v@)));
                        }
                        if chars_eq_str(&k, "baseurl") {
                            baseurl = Some(v);
                        } else if chars_eq_str(&k, "username") {
                            username = Some(v);
                        } else if chars_eq_str(&k, "password") {
                            password = Some(v);
                        }
                    },
                }
            }
            proof {
                if lines_ok(prev) && line_ok(curl) {
                    assert forall|j: int| 0 <= j < i + 1 implies #[trigger] line_ok(
                        lv.take(i as int + 1)[j],
                    ) by {
                        if j < i {
                            assert(lv.take(i as int + 1)[j] == prev[j]);
                        } else {
                            assert(lv.take(i as int + 1)[j] == curl);
                        }
                    }
                } else if !line_ok(curl) {
                    assert(lv.take(i as int + 1)[i as int] == curl);
                    assert(!lines_ok(lv.take(i as int + 1)));
                } else {
                    let j = choose|j: int| 0 <= j < prev.len() && !line_ok(prev[j]);
                    assert(lv.take(i as int + 1)[j] == prev[j]);
                    assert(!lines_ok(lv.take(i as int + 1)));
                }
            }
            ok = ok && line_is_ok;
            i = i + 1;
        }
        proof {
            assert(lv.take(i as int) =~= lv);
        }
        let has_base = match &baseurl {
            Some(b) => b.len() > 0,
            None => false,
        };
        if ok && has_base {
            let b = match baseurl {
                Some(b) => b,
                None => Vec::new(),
            };
            Config { baseurl: b, username, password, valid: true, dry_run: false }
        } else {
            Config {
                baseurl: Vec::new(),
                username: None,
                password: None,
                valid: false,
                dry_run: false,
            }
        }
    }

    /// Whether parsing succeeded and every required setting is
    /// present and well-formed.  The orchestration treats `false` as
    /// fatal and terminates before dispatch.
    pub fn is_valid(&self) -> (r: bool)
        ensures
            r == self.valid,
    {
        self.valid
    }

    /// Sets the dry-run flag; every other setting is kept.  Safe to
    /// call repeatedly: the last write wins.
    pub fn set_dry_run(&mut self, value: bool)
        ensures
            final (self).dry_run == value,
            final (self).baseurl == old(self).baseurl,
            final (self).username == old(self).username,
            final (self).password == old(self).password,
            final (self).valid == old(self).valid,
    {
        self.dry_run = value;
    }
}

} // verus!
