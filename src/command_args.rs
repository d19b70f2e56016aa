use vstd::prelude::*;

verus! {

/// The pieces of `s` between single spaces, in order. Two adjacent spaces
/// give an empty piece, and there is always at least one piece.
pub open spec fn split_spaces(s: Seq<char>) -> Seq<Seq<char>>
    decreases s.len(),
{
    if s.len() == 0 {
        seq![Seq::<char>::empty()]
    } else {
        let p = split_spaces(s.drop_last());
        if s.last() == ' ' {
            p.push(Seq::<char>::empty())
        } else {
            p.update(p.len() - 1, p.last().push(s.last()))
        }
    }
}

/// The pieces joined back together with one space between neighbours.
pub open spec fn join_spaces(parts: Seq<Seq<char>>) -> Seq<char>
    decreases parts.len(),
{
    if parts.len() == 0 {
        Seq::<char>::empty()
    } else if parts.len() == 1 {
        parts[0]
    } else {
        join_spaces(parts.drop_last()) + seq![' '] + parts.last()
    }
}

/// The character sequences held by a list of strings.
pub open spec fn strings_view(v: Seq<String>) -> Seq<Seq<char>> {
    v.map_values(|x: String| x@)
}

pub proof fn lemma_split_spaces_nonempty(s: Seq<char>)
    ensures
        split_spaces(s).len() >= 1,
    decreases s.len(),
{
    if s.len() > 0 {
        lemma_split_spaces_nonempty(s.drop_last());
    }
}

/// Splitting on spaces and joining the pieces with spaces gives the text back.
pub proof fn lemma_join_split(s: Seq<char>)
    ensures
        join_spaces(split_spaces(s)) == s,
    decreases s.len(),
{
    if s.len() > 0 {
        let t = s.drop_last();
        lemma_join_split(t);
        lemma_split_spaces_nonempty(t);
        let p = split_spaces(t);
        if s.last() == ' ' {
            assert(p.push(Seq::<char>::empty()).drop_last() == p);
            assert(t + seq![' '] + Seq::<char>::empty() == s);
        } else {
            let q = p.update(p.len() - 1, p.last().push(s.last()));
            if p.len() == 1 {
                assert(p[0] == t);
                assert(q[0] == s);
            } else {
                assert(q.drop_last() == p.drop_last());
                assert(join_spaces(p) == join_spaces(p.drop_last()) + seq![' '] + p.last());
                assert(join_spaces(q) == join_spaces(q.drop_last()) + seq![' '] + q.last());
                assert(q.last() == p.last().push(s.last()));
                assert(s =~= t.push(s.last()));
                assert(join_spaces(q) =~= s);
            }
        }
    }
}

/// A command name followed by its arguments, given as a list.
/// The list is never empty.
#[derive(Debug, Eq, Hash, PartialEq)]
pub struct NonEmptyCommandArgsVec(Vec<String>);

impl NonEmptyCommandArgsVec {
    #[verifier::type_invariant]
    spec fn inv(&self) -> bool {
        self.0@.len() > 0
    }

    /// The command name and the arguments, in order.
    pub closed spec fn view(&self) -> Seq<Seq<char>> {
        strings_view(self.0@)
    }

    /// Accepts any list but an empty one, which names no command.
    pub fn try_from(args: Vec<String>) -> (r: Result<Self, &'static str>)
        ensures
            r is Ok <==> args@.len() > 0,
            r matches Ok(v) ==> v@ == strings_view(args@),
            r is Err ==> r->Err_0@ == "command arguments should not be empty"@,
    {
        if args.len() == 0 {
            Err("command arguments should not be empty")
        } else {
            Ok(NonEmptyCommandArgsVec(args))
        }
    }

    /// The command name and arguments.
    pub fn as_slice(&self) -> (r: &[String])
        ensures
            strings_view(r@) == self@,
            r@.len() > 0,
    {
        proof {
            use_type_invariant(self);
        }
        self.0.as_slice()
    }
}

impl Clone for NonEmptyCommandArgsVec {
    fn clone(&self) -> (r: Self)
        ensures
            r@ == self@,
    {
        proof {
            use_type_invariant(self);
        }
        NonEmptyCommandArgsVec(copy_strings(self.0.as_slice()))
    }
}

/// A command line as the configuration gives it: either one string whose
/// words are separated by single spaces, or a list of words.
#[derive(Clone, Debug, Eq, Hash, PartialEq)]
pub enum FullCommandArgs {
    String(String),
    Vec(NonEmptyCommandArgsVec),
}

impl FullCommandArgs {
    /// The words of the command line, the command name first.
    pub open spec fn words(&self) -> Seq<Seq<char>> {
        match self {
            FullCommandArgs::String(s) => split_spaces(s@),
            FullCommandArgs::Vec(a) => a@,
        }
    }

    /// A command line given as one string.
    pub fn from_text(s: &str) -> (r: Self)
        ensures
            r matches FullCommandArgs::String(t) && t@ == s@,
    {
        FullCommandArgs::String(s.to_string())
    }

    /// Returns arguments including the command name.
    ///
    /// The list is not empty, but each element may be an empty string.
    pub fn args(&self) -> (r: Vec<String>)
        ensures
            strings_view(r@) == self.words(),
            r@.len() > 0,
    {
        match self {
            FullCommandArgs::String(s) => split_on_spaces(s.as_str()),
            FullCommandArgs::Vec(a) => copy_strings(a.as_slice()),
        }
    }

    /// The command line written out, list words separated by spaces.
    pub fn to_display_string(&self) -> (r: String)
        ensures
            r@ == join_spaces(self.words()),
    {
        match self {
            FullCommandArgs::String(s) => {
                proof {
                    lemma_join_split(s@);
                }
                s.clone()
            },
            FullCommandArgs::Vec(a) => join_with_spaces(a.as_slice()),
        }
    }
}

/// Splits `s` at every single space.
fn split_on_spaces(s: &str) -> (r: Vec<String>)
    ensures
        strings_view(r@) == split_spaces(s@),
        r@.len() > 0,
{
    let n = s.unicode_len();
    let mut parts: Vec<String> = Vec::new();
    let mut start: usize = 0;
    let mut i: usize = 0;
    proof {
        assert(s@.take(0) =~= Seq::<char>::empty());
        assert(strings_view(parts@) =~= Seq::<Seq<char>>::empty());
    }
    while i < n
        invariant
            n == s@.len(),
            start <= i <= n,
            split_spaces(s@.take(i as int)) == strings_view(parts@).push(
                s@.subrange(start as int, i as int),
            ),
        decreases n - i,
    {
        let c = s.get_char(i);
        proof {
            assert(s@.take(i + 1).drop_last() == s@.take(i as int));
            assert(s@.take(i + 1).last() == c);
        }
        if c == ' ' {
            let piece = s.substring_char(start, i).to_string();
            parts.push(piece);
            start = i + 1;
            proof {
                assert(strings_view(parts@) == strings_view(parts@.drop_last()).push(piece@));
                assert(s@.subrange(start as int, i + 1) == Seq::<char>::empty());
            }
        } else {
            proof {
                assert(s@.subrange(start as int, i + 1) == s@.subrange(start as int, i as int).push(c));
            }
        }
        i = i + 1;
    }
    let last = s.substring_char(start, n).to_string();
    parts.push(last);
    proof {
        assert(s@.take(n as int) == s@);
        assert(strings_view(parts@) == strings_view(parts@.drop_last()).push(last@));
    }
    parts
}

/// A fresh list holding the same strings.
fn copy_strings(words: &[String]) -> (r: Vec<String>)
    ensures
        strings_view(r@) == strings_view(words@),
        r@.len() == words@.len(),
{
    let mut out: Vec<String> = Vec::new();
    let mut i: usize = 0;
    while i < words.len()
        invariant
            i <= words@.len(),
            out@.len() == i,
            strings_view(out@) == strings_view(words@.take(i as int)),
        decreases words@.len() - i,
    {
        let w = words[i].clone();
        out.push(w);
        proof {
            assert(strings_view(words@.take(i + 1)) == strings_view(words@.take(i as int)).push(words@[i as int]@));
            assert(strings_view(out@) == strings_view(out@.drop_last()).push(w@));
        }
        i = i + 1;
    }
    proof {
        assert(words@.take(words@.len() as int) == words@);
    }
    out
}

/// Joins the words with one space between neighbours.
fn join_with_spaces(words: &[String]) -> (r: String)
    ensures
        r@ == join_spaces(strings_view(words@)),
{
    let mut out = String::new();
    let mut i: usize = 0;
    while i < words.len()
        invariant
            i <= words@.len(),
            out@ == join_spaces(strings_view(words@.take(i as int))),
        decreases words@.len() - i,
    {
        proof {
            assert(strings_view(words@.take(i + 1)).drop_last() == strings_view(words@.take(i as int)));
            assert(strings_view(words@.take(i + 1)).last() == words@[i as int]@);
        }
        let ghost v = strings_view(words@.take(i + 1));
        if i > 0 {
            proof {
                reveal_strlit(" ");
                assert(join_spaces(v) == join_spaces(v.drop_last()) + seq![' '] + v.last());
            }
            out.append(" ");
        }
        out.append(words[i].as_str());
        proof {
            assert(out@ =~= join_spaces(v));
        }
        i = i + 1;
    }
    proof {
        assert(words@.take(words@.len() as int) == words@);
    }
    out
}

} // verus!
