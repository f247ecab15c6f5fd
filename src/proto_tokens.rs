use vstd::prelude::*;
use vstd::string::*;

use crate::text::{char_is_whitespace, split_by, split_on, unicode_white_space};

verus! {

/// A character that only separates tokens: a space or a control character.
pub open spec fn is_blank(c: char) -> bool {
    (c as u32) <= 32
}

/// A character that is a token of its own.
pub open spec fn is_punct(c: char) -> bool {
    c == '(' || c == ')' || c == ';' || c == '{' || c == '}'
}

pub open spec fn is_word_char(c: char) -> bool {
    !is_blank(c) && !is_punct(c)
}

/// The end of the run of word characters of `line` that starts at `pos`.
pub open spec fn word_end(line: Seq<char>, pos: int) -> int
    decreases line.len() - pos,
{
    if pos < 0 || pos >= line.len() || !is_word_char(line[pos]) {
        pos
    } else {
        word_end(line, pos + 1)
    }
}

pub proof fn lemma_word_end_bounds(line: Seq<char>, pos: int)
    requires
        0 <= pos <= line.len(),
    ensures
        pos <= word_end(line, pos) <= line.len(),
    decreases line.len() - pos,
{
    if pos < line.len() && is_word_char(line[pos]) {
        lemma_word_end_bounds(line, pos + 1);
    }
}

/// The tokens of `line` from `pos` on: each punctuation character alone,
/// each maximal run of word characters, blanks dropped.
pub open spec fn tokens_from(line: Seq<char>, pos: int) -> Seq<Seq<char>>
    decreases line.len() - pos,
{
    if pos < 0 || pos >= line.len() {
        Seq::empty()
    } else if is_blank(line[pos]) {
        tokens_from(line, pos + 1)
    } else if is_punct(line[pos]) {
        seq![line.subrange(pos, pos + 1)] + tokens_from(line, pos + 1)
    } else {
        proof {
            lemma_word_end_bounds(line, pos + 1);
        }
        let e = word_end(line, pos + 1);
        seq![line.subrange(pos, e)] + tokens_from(line, e)
    }
}

/// A line whose first character that is not white space starts `//`.
pub open spec fn is_comment_line(line: Seq<char>) -> bool {
    exists|k: int| #[trigger] comment_starts_at(line, k)
}

/// `line` holds only white space before `k`, and `//` at `k`.
pub open spec fn comment_starts_at(line: Seq<char>, k: int) -> bool {
    &&& 0 <= k && k + 1 < line.len()
    &&& line[k] == '/' && line[k + 1] == '/'
    &&& forall|j: int| 0 <= j < k ==> #[trigger] unicode_white_space(line[j])
}

/// The lines that are not comments, in order.
pub open spec fn code_lines(lines: Seq<Seq<char>>) -> Seq<Seq<char>>
    decreases lines.len(),
{
    if lines.len() == 0 {
        Seq::empty()
    } else if is_comment_line(lines.last()) {
        code_lines(lines.drop_last())
    } else {
        code_lines(lines.drop_last()).push(lines.last())
    }
}

/// The tokens of each line, one line after the other.
pub open spec fn tokens_of_lines(lines: Seq<Seq<char>>) -> Seq<Seq<char>>
    decreases lines.len(),
{
    if lines.len() == 0 {
        Seq::empty()
    } else {
        tokens_from(lines[0], 0) + tokens_of_lines(lines.drop_first())
    }
}

/// The tokens of a proto text: those of its lines that are not comments.
pub open spec fn proto_tokens(src: Seq<char>) -> Seq<Seq<char>> {
    tokens_of_lines(code_lines(split_on(src, '\n')))
}

fn is_comment(line: &str) -> (r: bool)
    ensures
        r == is_comment_line(line@),
{
    let n = line.unicode_len();
    let mut k: usize = 0;
    while k < n && char_is_whitespace(line.get_char(k))
        invariant
            k <= n == line@.len(),
            forall|j: int| 0 <= j < k ==> #[trigger] unicode_white_space(line@[j]),
        decreases n - k,
    {
        k = k + 1;
    }
    let r = k < n && n - k > 1 && line.get_char(k) == '/' && line.get_char(k + 1) == '/';
    proof {
        if r {
            assert(comment_starts_at(line@, k as int));
        } else if is_comment_line(line@) {
            let k2 = choose|k2: int| #[trigger] comment_starts_at(line@, k2);
            if k2 < k {
                assert(unicode_white_space(line@[k2]));
            } else if k2 > k {
                assert(unicode_white_space(line@[k as int]));
            }
        }
    }
    r
}

/// The lines of `src` that are not comments.
pub fn clean_up_comments(src: &str) -> (r: Vec<&str>)
    ensures
        r@.map_values(|l: &str| l@) == code_lines(split_on(src@, '\n')),
{
    let lines = split_by(src, '\n');
    let ghost all = lines@.map_values(|l: &str| l@);
    let mut out: Vec<&str> = Vec::new();
    let mut i: usize = 0;
    proof {
        assert(all.subrange(0, 0) =~= Seq::<Seq<char>>::empty());
        assert(out@.map_values(|l: &str| l@) =~= Seq::<Seq<char>>::empty());
    }
    while i < lines.len()
        invariant
            i <= lines@.len(),
            all == lines@.map_values(|l: &str| l@),
            out@.map_values(|l: &str| l@) == code_lines(all.subrange(0, i as int)),
        decreases lines@.len() - i,
    {
        let line = lines[i];
        proof {
            let t = all.subrange(0, i as int + 1);
            assert(t.drop_last() =~= all.subrange(0, i as int));
            assert(t.last() == line@);
        }
        if !is_comment(line) {
            out.push(line);
            proof {
                assert(out@.map_values(|l: &str| l@) =~= code_lines(all.subrange(0, i as int)).push(
                    line@,
                ));
            }
        }
        i = i + 1;
    }
    proof {
        assert(all.subrange(0, lines@.len() as int) =~= all);
    }
    out
}

/// The next token of `line` at or after `pos`, with the position just past it.
pub fn iterate_through_line(line: &str, pos: usize) -> (r: Option<(&str, usize)>)
    requires
        pos <= line@.len(),
    ensures
        match r {
            None => tokens_from(line@, pos as int) == Seq::<Seq<char>>::empty(),
            Some((t, next)) => {
                &&& pos < next <= line@.len()
                &&& tokens_from(line@, pos as int).len() > 0
                &&& t@ == tokens_from(line@, pos as int)[0]
                &&& tokens_from(line@, next as int) == tokens_from(line@, pos as int).drop_first()
            },
        },
{
    let n = line.unicode_len();
    let mut p: usize = pos;
    while p < n && (line.get_char(p) as u32) <= 32
        invariant
            pos <= p <= n == line@.len(),
            tokens_from(line@, p as int) == tokens_from(line@, pos as int),
        decreases n - p,
    {
        p = p + 1;
    }
    if p >= n {
        return None;
    }
    let c = line.get_char(p);
    if c == '(' || c == ')' || c == ';' || c == '{' || c == '}' {
        let t = line.substring_char(p, p + 1);
        proof {
            assert((seq![line@.subrange(p as int, p as int + 1)] + tokens_from(
                line@,
                p as int + 1,
            )).drop_first() =~= tokens_from(line@, p as int + 1));
        }
        return Some((t, p + 1));
    }
    let start = p;
    p = p + 1;
    while p < n && (line.get_char(p) as u32) > 32 && !is_punct_char(line.get_char(p))
        invariant
            start < p <= n == line@.len(),
            word_end(line@, p as int) == word_end(line@, start as int + 1),
        decreases n - p,
    {
        p = p + 1;
    }
    let t = line.substring_char(start, p);
    proof {
        assert(word_end(line@, p as int) == p);
        assert((seq![line@.subrange(start as int, p as int)] + tokens_from(line@, p as int)).drop_first()
            =~= tokens_from(line@, p as int));
    }
    Some((t, p))
}

fn is_punct_char(c: char) -> (r: bool)
    ensures
        r == is_punct(c),
{
    c == '(' || c == ')' || c == ';' || c == '{' || c == '}'
}

/// Reads the tokens of a proto text one at a time, skipping comment lines.
pub struct ProtoTokensReader<'s> {
    lines: Vec<&'s str>,
    line_index: usize,
    pos: usize,
}

impl<'s> ProtoTokensReader<'s> {
    /// The tokens that are still to come.
    pub closed spec fn remaining(&self) -> Seq<Seq<char>> {
        if self.line_index < self.lines@.len() {
            tokens_from(self.lines@[self.line_index as int]@, self.pos as int) + tokens_of_lines(
                self.lines@.map_values(|l: &str| l@).skip(self.line_index as int + 1),
            )
        } else {
            Seq::empty()
        }
    }

    pub closed spec fn wf(&self) -> bool {
        self.line_index < self.lines@.len() ==> self.pos <= self.lines@[self.line_index as int]@.len()
    }

    pub fn new(content: &'s str) -> (r: Self)
        ensures
            r.wf(),
            r.remaining() == proto_tokens(content@),
    {
        let lines = clean_up_comments(content);
        let r = ProtoTokensReader { lines, line_index: 0, pos: 0 };
        proof {
            let ls = r.lines@.map_values(|l: &str| l@);
            if ls.len() > 0 {
                assert(ls.skip(1) =~= ls.drop_first());
                assert(ls[0] == r.lines@[0]@);
            } else {
                assert(ls =~= Seq::<Seq<char>>::empty());
            }
        }
        r
    }

    /// The next token, or `None` once all have been read.
    pub fn get_next(&mut self) -> (r: Option<&'s str>)
        requires
            old(self).wf(),
        ensures
            final(self).wf(),
            r is None ==> old(self).remaining() == Seq::<Seq<char>>::empty(),
            r is None ==> final(self).remaining() == Seq::<Seq<char>>::empty(),
            r is Some ==> old(self).remaining().len() > 0,
            r is Some ==> r->0@ == old(self).remaining()[0],
            r is Some ==> final(self).remaining() == old(self).remaining().drop_first(),
    {
        let ghost rest = self.remaining();
        while self.line_index < self.lines.len()
            invariant
                self.wf(),
                self.remaining() == rest,
                rest == old(self).remaining(),
            decreases self.lines@.len() - self.line_index,
        {
            let line = self.lines[self.line_index];
            match iterate_through_line(line, self.pos) {
                Some((t, next)) => {
                    self.pos = next;
                    proof {
                        assert(self.remaining() =~= rest.drop_first());
                    }
                    return Some(t);
                },
                None => {
                    proof {
                        let ls = self.lines@.map_values(|l: &str| l@);
                        let i = self.line_index as int;
                        if i + 1 < ls.len() {
                            assert(ls.skip(i + 1).drop_first() =~= ls.skip(i + 2));
                            assert(ls.skip(i + 1)[0] == self.lines@[i + 1]@);
                        } else {
                            assert(ls.skip(i + 1) =~= Seq::<Seq<char>>::empty());
                        }
                    }
                    self.line_index = self.line_index + 1;
                    self.pos = 0;
                },
            }
        }
        None
    }
}

} // verus!
