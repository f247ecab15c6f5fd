use vstd::prelude::*;
use vstd::string::*;

use crate::text::{lemma_split_on_nonempty, split_by, split_on, str_eq};

verus! {

/// Space, tab, line feed, form feed and carriage return.
pub open spec fn is_ascii_space(c: char) -> bool {
    c == ' ' || c == '\t' || c == '\n' || (c as u32) == 12 || c == '\r'
}

/// The end of the run of characters of `s` that are not ASCII white space
/// and start at `pos`.
pub open spec fn run_end(s: Seq<char>, pos: int) -> int
    decreases s.len() - pos,
{
    if pos < 0 || pos >= s.len() || is_ascii_space(s[pos]) {
        pos
    } else {
        run_end(s, pos + 1)
    }
}

pub proof fn lemma_run_end_bounds(s: Seq<char>, pos: int)
    requires
        0 <= pos <= s.len(),
    ensures
        pos <= run_end(s, pos) <= s.len(),
    decreases s.len() - pos,
{
    if pos < s.len() && !is_ascii_space(s[pos]) {
        lemma_run_end_bounds(s, pos + 1);
    }
}

/// The words of `s` from `pos` on, as `str::split_ascii_whitespace` gives them.
pub open spec fn words_from(s: Seq<char>, pos: int) -> Seq<Seq<char>>
    decreases s.len() - pos,
{
    if pos < 0 || pos >= s.len() {
        Seq::empty()
    } else if is_ascii_space(s[pos]) {
        words_from(s, pos + 1)
    } else {
        proof {
            lemma_run_end_bounds(s, pos + 1);
        }
        let e = run_end(s, pos + 1);
        seq![s.subrange(pos, e)] + words_from(s, e)
    }
}

/// The index of the first word that is not `stream`, if there is one.
pub open spec fn first_name_index(words: Seq<Seq<char>>, k: int) -> Option<int>
    decreases words.len() - k,
{
    if k < 0 || k >= words.len() {
        None
    } else if words[k] != "stream"@ {
        Some(k)
    } else {
        first_name_index(words, k + 1)
    }
}

/// The part of a dotted name after its last dot.
pub open spec fn last_segment(name: Seq<char>) -> Seq<char> {
    split_on(name, '.').last()
}

/// A parameter or result type of an rpc, read from the text between its
/// parentheses: whether it is streamed, and the name of its type.
pub open spec fn parse_param_spec(src: Seq<char>) -> Option<(bool, Seq<char>)> {
    let words = words_from(src, 0);
    match first_name_index(words, 0) {
        None => None,
        Some(k) => if words[k] == "google.protobuf.Empty"@ {
            Some((false, "()"@))
        } else {
            Some((k > 0, last_segment(words[k])))
        },
    }
}

/// The type of an rpc's parameter or result.
#[derive(Debug)]
pub enum ParamType<'s> {
    Single(&'s str),
    Stream(&'s str),
}

impl<'s> ParamType<'s> {
    /// Whether it is streamed, and the name of its type.
    pub open spec fn spec_parts(&self) -> (bool, Seq<char>) {
        match self {
            ParamType::Single(name) => (false, name@),
            ParamType::Stream(name) => (true, name@),
        }
    }

    pub fn parse(src: &'s str) -> (r: Option<Self>)
        ensures
            r matches Some(p) ==> parse_param_spec(src@) == Some(p.spec_parts()),
            r is None ==> parse_param_spec(src@) is None,
    {
        let ghost words = words_from(src@, 0);
        let mut is_vec = false;
        let mut pos: usize = 0;
        let ghost mut k: int = 0;
        let n = src.unicode_len();
        let mut name: &str = "";
        loop
            invariant
                n == src@.len(),
                pos <= n,
                0 <= k <= words.len(),
                words == words_from(src@, 0),
                words_from(src@, pos as int) == words.skip(k),
                first_name_index(words, 0) == first_name_index(words, k),
                is_vec == (k > 0),
            ensures
                0 <= k < words.len(),
                name@ == words[k],
                first_name_index(words, 0) == Some(k),
                is_vec == (k > 0),
            decreases n - pos,
        {
            match next_word(src, pos) {
                None => {
                    proof {
                        assert(words.skip(k).len() == 0);
                    }
                    return None;
                },
                Some((w, next)) => {
                    proof {
                        assert(words.skip(k)[0] == words[k]);
                        assert(words.skip(k).drop_first() =~= words.skip(k + 1));
                    }
                    if str_eq(w, "stream") {
                        is_vec = true;
                        pos = next;
                        proof {
                            k = k + 1;
                        }
                    } else {
                        name = w;
                        break ;
                    }
                },
            }
        }
        if str_eq(name, "google.protobuf.Empty") {
            return Some(ParamType::Single("()"));
        }
        let parts = split_by(name, '.');
        proof {
            lemma_split_on_nonempty(name@, '.');
        }
        let last = parts[parts.len() - 1];
        if is_vec {
            Some(ParamType::Stream(last))
        } else {
            Some(ParamType::Single(last))
        }
    }

    pub fn is_stream(&self) -> (r: bool)
        ensures
            r == self.spec_parts().0,
    {
        match self {
            ParamType::Single(_) => false,
            ParamType::Stream(_) => true,
        }
    }

    pub fn get_name(&self) -> (r: &str)
        ensures
            r@ == self.spec_parts().1,
    {
        match self {
            ParamType::Single(name) => name,
            ParamType::Stream(name) => name,
        }
    }

    /// The expression that hands the input to a generated call.
    pub fn get_input_param_invoke(&self) -> (r: &'static str)
        ensures
            r@ == (if self.spec_parts().0 {
                "input_data.get_consumer()"@
            } else {
                "input_data"@
            }),
    {
        match self {
            ParamType::Single(_) => "input_data",
            ParamType::Stream(_) => "input_data.get_consumer()",
        }
    }

    /// The result type that a generated call returns.
    pub fn get_output_param_type(&self) -> (r: String)
        ensures
            r@ == (if self.spec_parts().0 {
                "tonic::Streaming<"@ + self.spec_parts().1 + ">"@
            } else {
                self.spec_parts().1
            }),
    {
        match self {
            ParamType::Single(name) => String::from_str(name),
            ParamType::Stream(name) => {
                let mut r = String::from_str("tonic::Streaming<");
                r.append(name);
                r.append(">");
                r
            },
        }
    }
}

/// The next word of `s` at or after `pos`, with the position just past it.
fn next_word(s: &str, pos: usize) -> (r: Option<(&str, usize)>)
    requires
        pos <= s@.len(),
    ensures
        match r {
            None => words_from(s@, pos as int) == Seq::<Seq<char>>::empty(),
            Some((w, next)) => {
                &&& pos < next <= s@.len()
                &&& words_from(s@, pos as int).len() > 0
                &&& w@ == words_from(s@, pos as int)[0]
                &&& words_from(s@, next as int) == words_from(s@, pos as int).drop_first()
            },
        },
{
    let n = s.unicode_len();
    let mut p: usize = pos;
    while p < n && is_ascii_space_char(s.get_char(p))
        invariant
            pos <= p <= n == s@.len(),
            words_from(s@, p as int) == words_from(s@, pos as int),
        decreases n - p,
    {
        p = p + 1;
    }
    if p >= n {
        return None;
    }
    let start = p;
    p = p + 1;
    while p < n && !is_ascii_space_char(s.get_char(p))
        invariant
            start < p <= n == s@.len(),
            run_end(s@, p as int) == run_end(s@, start as int + 1),
        decreases n - p,
    {
        p = p + 1;
    }
    let w = s.substring_char(start, p);
    proof {
        assert((seq![s@.subrange(start as int, p as int)] + words_from(s@, p as int)).drop_first()
            =~= words_from(s@, p as int));
    }
    Some((w, p))
}

fn is_ascii_space_char(c: char) -> (r: bool)
    ensures
        r == is_ascii_space(c),
{
    c == ' ' || c == '\t' || c == '\n' || (c as u32) == 12 || c == '\r'
}

} // verus!
