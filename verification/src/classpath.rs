//! The classpath: an ordered list of directories searched for class files.
//!
//! A classpath is written as a single string of paths separated by `;`.
//! Every segment is trimmed of surrounding whitespace, empty segments are
//! dropped, and the current directory `.` is always the first entry.

use vstd::prelude::*;

verus! {

/// Whitespace stripped from both ends of every classpath segment.
pub open spec fn is_space_char(c: char) -> bool {
    c == ' ' || c == '\t' || c == '\n' || c == '\r'
}

/// The segment seq with leading whitespace removed.
pub open spec fn trim_start(s: Seq<char>) -> Seq<char>
    decreases s.len(),
{
    if s.len() > 0 && is_space_char(s[0]) {
        trim_start(s.drop_first())
    } else {
        s
    }
}

/// The segment seq with trailing whitespace removed.
pub open spec fn trim_end(s: Seq<char>) -> Seq<char>
    decreases s.len(),
{
    if s.len() > 0 && is_space_char(s[s.len() - 1]) {
        trim_end(s.drop_last())
    } else {
        s
    }
}

/// The segment seq with whitespace removed from both ends.
pub open spec fn trim_spec(s: Seq<char>) -> Seq<char> {
    trim_end(trim_start(s))
}

/// The pieces of `s` between `;` separators, scanning from position `i`
/// with the current piece having started at position `start`.
pub open spec fn split_from(s: Seq<char>, start: int, i: int) -> Seq<Seq<char>>
    decreases s.len() - i,
{
    if i < 0 || start < 0 || start > i {
        Seq::empty()
    } else if i >= s.len() {
        seq![s.subrange(start, s.len() as int)]
    } else if s[i] == ';' {
        seq![s.subrange(start, i)] + split_from(s, i + 1, i + 1)
    } else {
        split_from(s, start, i + 1)
    }
}

/// All pieces of `s` between `;` separators, in order.
pub open spec fn split_semi(s: Seq<char>) -> Seq<Seq<char>> {
    split_from(s, 0, 0)
}

/// Each piece trimmed, empty pieces dropped.
pub open spec fn cleaned_segments(parts: Seq<Seq<char>>) -> Seq<Seq<char>>
    decreases parts.len(),
{
    if parts.len() == 0 {
        Seq::empty()
    } else if trim_spec(parts[0]).len() > 0 {
        seq![trim_spec(parts[0])] + cleaned_segments(parts.drop_first())
    } else {
        cleaned_segments(parts.drop_first())
    }
}

/// The full decomposition of a classpath string: `.` first, then every
/// nonempty trimmed piece in order.
pub open spec fn classpath_entries(s: Seq<char>) -> Seq<Seq<char>> {
    seq![seq!['.']] + cleaned_segments(split_semi(s))
}

proof fn lemma_cleaned_distributes(a: Seq<Seq<char>>, b: Seq<Seq<char>>)
    ensures
        cleaned_segments(a + b) == cleaned_segments(a) + cleaned_segments(b),
    decreases a.len(),
{
    if a.len() == 0 {
        assert(a + b =~= b);
        assert(cleaned_segments(a) + cleaned_segments(b) =~= cleaned_segments(b));
    } else {
        lemma_cleaned_distributes(a.drop_first(), b);
        assert((a + b).drop_first() =~= a.drop_first() + b);
        if trim_spec(a[0]).len() > 0 {
            assert(cleaned_segments(a + b) =~= seq![trim_spec(a[0])] + (cleaned_segments(
                a.drop_first(),
            ) + cleaned_segments(b)));
            assert(cleaned_segments(a) + cleaned_segments(b) =~= seq![trim_spec(a[0])] + (
            cleaned_segments(a.drop_first()) + cleaned_segments(b)));
        }
    }
}

/// Trimming `s` removes exactly the `a` leading spaces when position `a`
/// is the first non-space (or the end).
proof fn lemma_trim_start_at(s: Seq<char>, a: int)
    requires
        0 <= a <= s.len(),
        forall|j: int| 0 <= j < a ==> is_space_char(s[j]),
        a < s.len() ==> !is_space_char(s[a]),
    ensures
        trim_start(s) == s.subrange(a, s.len() as int),
    decreases a,
{
    if a == 0 {
        assert(s.subrange(0, s.len() as int) =~= s);
    } else {
        lemma_trim_start_at(s.drop_first(), a - 1);
        assert(s.drop_first().subrange(a - 1, s.drop_first().len() as int) =~= s.subrange(
            a,
            s.len() as int,
        ));
    }
}

/// Trimming the end of `s` keeps exactly the first `b` characters when
/// position `b - 1` is the last non-space (or `b` is zero).
proof fn lemma_trim_end_at(s: Seq<char>, b: int)
    requires
        0 <= b <= s.len(),
        forall|j: int| b <= j < s.len() ==> is_space_char(s[j]),
        b > 0 ==> !is_space_char(s[b - 1]),
    ensures
        trim_end(s) == s.subrange(0, b),
    decreases s.len(),
{
    if b == s.len() {
        assert(s.subrange(0, s.len() as int) =~= s);
    } else {
        lemma_trim_end_at(s.drop_last(), b);
        assert(s.drop_last().subrange(0, b) =~= s.subrange(0, b));
    }
}

/// Whether `c` is whitespace that a classpath segment sheds at its ends.
fn is_space(c: char) -> (r: bool)
    ensures
        r == is_space_char(c),
{
    c == ' ' || c == '\t' || c == '\n' || c == '\r'
}

/// Remove whitespace from both ends of `piece`.
fn trim(piece: &str) -> (r: String)
    ensures
        r@ == trim_spec(piece@),
{
    let n = piece.unicode_len();
    let mut a: usize = 0;
    while a < n && is_space(piece.get_char(a))
        invariant
            0 <= a <= n == piece@.len(),
            forall|j: int| 0 <= j < a ==> is_space_char(piece@[j]),
        decreases n - a,
    {
        a += 1;
    }
    proof {
        lemma_trim_start_at(piece@, a as int);
    }
    let mut b: usize = n;
    while b > a && is_space(piece.get_char(b - 1))
        invariant
            a <= b <= n == piece@.len(),
            forall|j: int| b <= j < n ==> is_space_char(piece@[j]),
        decreases b,
    {
        b -= 1;
    }
    let sub = piece.substring_char(a, b);
    proof {
        let st = piece@.subrange(a as int, piece@.len() as int);
        if b == a {
            lemma_trim_end_at(st, 0);
        } else {
            lemma_trim_end_at(st, b - a);
        }
        assert(st.subrange(0, b - a) =~= piece@.subrange(a as int, b as int));
    }
    sub.to_owned()
}

/// An ordered list of directories to search for `.class` files.
pub struct ClassPath {
    paths: Vec<String>,
}

impl ClassPath {
    /// The directories, each as a character sequence, in search order.
    pub closed spec fn view(&self) -> Seq<Seq<char>> {
        Seq::new(self.paths@.len(), |i: int| self.paths@[i]@)
    }

    /// Convert a semicolon-separated list of paths to a `ClassPath`: the
    /// current directory is always included first, every other segment is
    /// trimmed, and empty segments are dropped.
    pub fn new_from_string(invar: &str) -> (r: ClassPath)
        ensures
            r@ == classpath_entries(invar@),
    {
        let mut v: Vec<String> = Vec::new();
        v.push(".".to_owned());
        proof {
            reveal_strlit(".");
            assert(Seq::new(v@.len(), |k: int| v@[k]@) =~~= seq![seq!['.']]);
        }
        let n = invar.unicode_len();
        let mut start: usize = 0;
        let mut i: usize = 0;
        while i < n
            invariant
                0 <= start <= i <= n == invar@.len(),
                v@.len() >= 1,
                Seq::new(v@.len(), |k: int| v@[k]@) + cleaned_segments(
                    split_from(invar@, start as int, i as int),
                ) == classpath_entries(invar@),
            decreases n - i,
        {
            let ghost prev = Seq::new(v@.len(), |k: int| v@[k]@);
            let c = invar.get_char(i);
            if c == ';' {
                let piece = invar.substring_char(start, i);
                let t = trim(piece);
                proof {
                    assert(piece@ =~= invar@.subrange(start as int, i as int));
                    assert(split_from(invar@, start as int, i as int) =~= seq![
                        invar@.subrange(start as int, i as int),
                    ] + split_from(invar@, i as int + 1, i as int + 1));
                    lemma_cleaned_distributes(
                        seq![invar@.subrange(start as int, i as int)],
                        split_from(invar@, i as int + 1, i as int + 1),
                    );
                    assert(cleaned_segments(seq![piece@].drop_first()) =~= Seq::<
                        Seq<char>,
                    >::empty());
                }
                if t.unicode_len() > 0 {
                    v.push(t);
                    proof {
                        assert(cleaned_segments(seq![piece@]) =~= seq![trim_spec(piece@)]);
                        assert(Seq::new(v@.len(), |k: int| v@[k]@) =~= prev + seq![
                            trim_spec(piece@),
                        ]);
                    }
                } else {
                    proof {
                        assert(cleaned_segments(seq![piece@]) =~= Seq::<Seq<char>>::empty());
                        assert(prev + Seq::<Seq<char>>::empty() =~= prev);
                    }
                }
                start = i + 1;
            }
            i += 1;
        }
        let piece = invar.substring_char(start, n);
        let t = trim(piece);
        proof {
            assert(piece@ =~= invar@.subrange(start as int, invar@.len() as int));
            assert(split_from(invar@, start as int, n as int) =~= seq![piece@]);
        }
        let ghost prev = Seq::new(v@.len(), |k: int| v@[k]@);
        if t.unicode_len() > 0 {
            v.push(t);
            proof {
                assert(cleaned_segments(seq![piece@].drop_first()) =~= Seq::<Seq<char>>::empty());
                assert(cleaned_segments(seq![piece@]) =~= seq![trim_spec(piece@)]);
                assert(Seq::new(v@.len(), |k: int| v@[k]@) =~= prev + seq![trim_spec(piece@)]);
            }
        } else {
            proof {
                assert(cleaned_segments(seq![piece@].drop_first()) =~= Seq::<Seq<char>>::empty());
                assert(cleaned_segments(seq![piece@]) =~= Seq::<Seq<char>>::empty());
                assert(prev + Seq::<Seq<char>>::empty() =~= prev);
            }
        }
        let r = ClassPath { paths: v };
        proof {
            assert(r@ =~= classpath_entries(invar@));
        }
        r
    }

    /// The directories backing this classpath, in search order.
    pub fn get_paths(&self) -> (r: &Vec<String>)
        ensures
            Seq::new(r@.len(), |i: int| r@[i]@) == self@,
    {
        &self.paths
    }
}

impl Clone for ClassPath {
    fn clone(&self) -> (r: Self)
        ensures
            r@ == self@,
    {
        let mut paths: Vec<String> = Vec::new();
        let mut i: usize = 0;
        while i < self.paths.len()
            invariant
                0 <= i <= self.paths@.len(),
                paths@.len() == i,
                forall|k: int| 0 <= k < i ==> paths@[k]@ == self.paths@[k]@,
            decreases self.paths@.len() - i,
        {
            paths.push(self.paths[i].clone());
            i += 1;
        }
        let r = ClassPath { paths };
        proof {
            assert(r@ =~= self@);
        }
        r
    }
}

} // verus!
