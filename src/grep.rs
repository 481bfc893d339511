//! Configuration and line selection for a small grep-like tool.
use vstd::prelude::*;
use vstd::std_specs::iter::IteratorSpec;

verus! {

/// What to look for, where, and whether letter case is ignored.
pub struct Config {
    pub target: String,
    pub file_path: String,
    pub is_ignore_case: bool,
}

impl Config {
    /// Reads a configuration from the command-line words `args`.
    ///
    /// The first word (the program's name) is skipped; the next two are the
    /// target and the file path. Words after them are ignored. Case is not
    /// ignored until `set_is_ignore_case` says otherwise.
    pub fn build(args: Vec<String>) -> (r: Result<Config, &'static str>)
        ensures
            r is Err <==> args@.len() < 3,
            r matches Ok(c) ==> {
                &&& c.target@ == args@[1]@
                &&& c.file_path@ == args@[2]@
                &&& !c.is_ignore_case
            },
    {
        if args.len() < 2 {
            return Err("Please input `target_string` and `file_path` as arguments");
        }
        let target = args[1].clone();
        if args.len() < 3 {
            return Err("Please input `target_string` and `file_path` as arguments");
        }
        let file_path = args[2].clone();
        Ok(Config { target, file_path, is_ignore_case: false })
    }

    /// The same configuration, with case ignored exactly when `value` holds.
    pub fn set_is_ignore_case(self, value: bool) -> (r: Config)
        ensures
            r.target == self.target,
            r.file_path == self.file_path,
            r.is_ignore_case == value,
    {
        let mut c = self;
        c.is_ignore_case = value;
        c
    }
}

/// The result of `str::to_lowercase` on a string of characters `s`.
pub uninterp spec fn lower_of(s: Seq<char>) -> Seq<char>;

/// Relies on `str::to_lowercase`: its result depends on the characters alone.
#[verifier::external_body]
fn lowercase(s: &str) -> (r: String)
    ensures
        r@ == lower_of(s@),
{
    s.to_lowercase()
}

/// Relies on `String`'s `FromIterator<&char>`: the string holds the given
/// characters, in order.
#[verifier::external_body]
fn string_of(v: &Vec<char>) -> (r: String)
    ensures
        r@ == v@,
{
    v.iter().collect::<String>()
}

/// Whether `needle` occurs in `hay` as a contiguous run of characters.
pub open spec fn contains(hay: Seq<char>, needle: Seq<char>) -> bool {
    exists|i: int|
        0 <= i && i + needle.len() <= hay.len() && #[trigger] hay.subrange(i, i + needle.len())
            == needle
}

/// Lines completed so far, and the line under way, after reading `s`.
/// A line ends at `'\n'`; a `'\r'` just before that `'\n'` belongs to the ending.
pub open spec fn scan_lines(s: Seq<char>) -> (Seq<Seq<char>>, Seq<char>)
    decreases s.len(),
{
    if s.len() == 0 {
        (seq![], seq![])
    } else {
        let (done, cur) = scan_lines(s.drop_last());
        if s.last() == '\n' {
            (done.push(strip_cr(cur)), seq![])
        } else {
            (done, cur.push(s.last()))
        }
    }
}

/// `line` without one trailing `'\r'`.
pub open spec fn strip_cr(line: Seq<char>) -> Seq<char> {
    if line.len() > 0 && line.last() == '\r' {
        line.drop_last()
    } else {
        line
    }
}

/// The lines of `s`: the final line needs no ending, and an ending at the very
/// end of the text opens no further line.
pub open spec fn lines_of(s: Seq<char>) -> Seq<Seq<char>> {
    let (done, cur) = scan_lines(s);
    if cur.len() == 0 {
        done
    } else {
        done.push(cur)
    }
}

/// Whether `line` is selected when looking for `target`.
pub open spec fn selects(target: Seq<char>, ignore_case: bool, line: Seq<char>) -> bool {
    if ignore_case {
        contains(lower_of(line), lower_of(target))
    } else {
        contains(line, target)
    }
}

/// The lines of `ls` that are selected, in their order.
pub open spec fn selected(target: Seq<char>, ignore_case: bool, ls: Seq<Seq<char>>) -> Seq<
    Seq<char>,
>
    decreases ls.len(),
{
    if ls.len() == 0 {
        seq![]
    } else {
        let rest = selected(target, ignore_case, ls.drop_last());
        if selects(target, ignore_case, ls.last()) {
            rest.push(ls.last())
        } else {
            rest
        }
    }
}

/// The characters of a string slice, in order.
pub fn chars_of(s: &str) -> (r: Vec<char>)
    ensures
        r@ == s@,
{
    broadcast use vstd::string::axiom_spec_iter, vstd::string::next_postcondition;

    let mut it = s.chars();
    let mut r: Vec<char> = Vec::new();
    loop
        invariant
            it.obeys_prophetic_iter_laws(),
            it.decrease() is Some,
            r@ + it.remaining() == s@,
        decreases it.decrease()->0,
    {
        match it.next() {
            Some(c) => {
                r.push(c);
                assert(r@ + it.remaining() =~= s@);
            },
            None => {
                assert(r@ =~= s@);
                return r;
            },
        }
    }
}

/// Whether `needle` occurs in `hay` as a contiguous run of characters.
pub fn contains_chars(hay: &Vec<char>, needle: &Vec<char>) -> (r: bool)
    ensures
        r == contains(hay@, needle@),
{
    let hlen = hay.len();
    if needle.len() > hlen {
        return false;
    }
    let last = hlen - needle.len();
    let mut i: usize = 0;
    loop
        invariant
            last == hay@.len() - needle@.len(),
            hay@.len() == hlen,
            0 <= i <= last,
            forall|k: int| 0 <= k < i ==> #[trigger] hay@.subrange(k, k + needle@.len()) != needle@,
        decreases last + 1 - i,
    {
        let mut j: usize = 0;
        let mut same = true;
        assert(hay@.subrange(i as int, i as int) =~= needle@.subrange(0, 0));
        while j < needle.len()
            invariant
                i <= last,
                last == hay@.len() - needle@.len(),
                i + needle@.len() <= hay@.len(),
                hay@.len() == hlen,
                0 <= j <= needle@.len(),
                same <==> hay@.subrange(i as int, i + j) == needle@.subrange(0, j as int),
            decreases needle@.len() - j,
        {
            let eq = hay[i + j] == needle[j];
            proof {
                let hs = hay@.subrange(i as int, i + j);
                let ns = needle@.subrange(0, j as int);
                assert(hay@.subrange(i as int, i + j + 1) =~= hs.push(hay@[i + j]));
                assert(needle@.subrange(0, j + 1) =~= ns.push(needle@[j as int]));
                if hs.push(hay@[i + j]) == ns.push(needle@[j as int]) {
                    assert(hs =~= hs.push(hay@[i + j]).drop_last());
                    assert(ns =~= ns.push(needle@[j as int]).drop_last());
                    assert(hs.push(hay@[i + j])[j as int] == ns.push(needle@[j as int])[j as int]);
                }
            }
            same = same && eq;
            j = j + 1;
        }
        assert(needle@.subrange(0, needle@.len() as int) =~= needle@);
        if same {
            return true;
        }
        if i == last {
            return false;
        }
        i = i + 1;
    }
}

/// The characters of each string of `v`.
pub open spec fn texts(v: Seq<String>) -> Seq<Seq<char>> {
    v.map_values(|l: String| l@)
}

/// The lines of `contents`, without their endings.
pub fn split_lines(contents: &str) -> (r: Vec<String>)
    ensures
        texts(r@) == lines_of(contents@),
{
    let chars = chars_of(contents);
    let mut done: Vec<String> = Vec::new();
    let mut cur: Vec<char> = Vec::new();
    let mut i: usize = 0;
    while i < chars.len()
        invariant
            chars@ == contents@,
            0 <= i <= chars@.len(),
            (texts(done@), cur@) == scan_lines(chars@.take(i as int)),
        decreases chars@.len() - i,
    {
        let c = chars[i];
        assert(chars@.take(i + 1).drop_last() =~= chars@.take(i as int));
        if c == '\n' {
            if cur.len() > 0 && cur[cur.len() - 1] == '\r' {
                cur.pop();
            }
            let line = string_of(&cur);
            let ghost prev = done@;
            done.push(line);
            cur = Vec::new();
            assert(texts(done@) =~= texts(prev).push(line@));
        } else {
            cur.push(c);
        }
        i = i + 1;
    }
    assert(chars@.take(i as int) =~= contents@);
    if cur.len() > 0 {
        let line = string_of(&cur);
        let ghost prev = done@;
        done.push(line);
        assert(texts(done@) =~= texts(prev).push(line@));
    }
    done
}

/// Whether `target` occurs in `line`, character for character.
///
/// With case ignored, both arguments are the lowercase forms.
pub fn line_matches(line: &str, target: &str) -> (r: bool)
    ensures
        r == contains(line@, target@),
{
    let hay = chars_of(line);
    let needle = chars_of(target);
    contains_chars(&hay, &needle)
}

/// The lines of `contents` that hold `config.target`, in their order.
///
/// When `config.is_ignore_case` holds, a line and the target are compared in
/// their lowercase forms.
pub fn search(config: &Config, contents: &str) -> (r: Vec<String>)
    ensures
        texts(r@) == selected(config.target@, config.is_ignore_case, lines_of(contents@)),
{
    let all = split_lines(contents);
    let target = if config.is_ignore_case {
        lowercase(config.target.as_str())
    } else {
        config.target.clone()
    };
    let mut r: Vec<String> = Vec::new();
    let mut i: usize = 0;
    while i < all.len()
        invariant
            0 <= i <= all@.len(),
            texts(all@) == lines_of(contents@),
            target@ == if config.is_ignore_case {
                lower_of(config.target@)
            } else {
                config.target@
            },
            texts(r@) == selected(
                config.target@,
                config.is_ignore_case,
                texts(all@).take(i as int),
            ),
        decreases all@.len() - i,
    {
        let line = &all[i];
        let keep = if config.is_ignore_case {
            let lower = lowercase(line.as_str());
            line_matches(lower.as_str(), target.as_str())
        } else {
            line_matches(line.as_str(), target.as_str())
        };
        assert(texts(all@).take(i + 1).drop_last() =~= texts(all@).take(i as int));
        if keep {
            let ghost prev = r@;
            r.push(line.clone());
            assert(texts(r@) =~= texts(prev).push(line@));
        }
        i = i + 1;
    }
    assert(texts(all@).take(i as int) =~= texts(all@));
    r
}

} // verus!
