use vstd::prelude::*;
use vstd::string::*;

use crate::text::{push_char, split_by, split_on};

verus! {

/// The correlation ids that travel with a call.
#[derive(Debug, Clone)]
pub enum TelemetryContext {
    Empty,
    Single(i64),
    Multiple(Vec<i64>),
}

/// What a [`TelemetryContext`] holds.
pub enum ContextModel {
    Empty,
    Single(i64),
    Multiple(Seq<i64>),
}

impl TelemetryContext {
    pub open spec fn model(&self) -> ContextModel {
        match self {
            TelemetryContext::Empty => ContextModel::Empty,
            TelemetryContext::Single(id) => ContextModel::Single(*id),
            TelemetryContext::Multiple(ids) => ContextModel::Multiple(ids@),
        }
    }

    pub fn new() -> (r: Self)
        ensures
            r.model() == ContextModel::Empty,
    {
        TelemetryContext::Empty
    }
}

pub open spec fn digit_char(d: int) -> char {
    (d + 48) as char
}

/// The decimal digits of `n`, most significant first.
pub open spec fn digits_of(n: nat) -> Seq<char>
    decreases n,
{
    if n < 10 {
        seq![digit_char(n as int)]
    } else {
        digits_of(n / 10).push(digit_char((n % 10) as int))
    }
}

/// `v` written in decimal, with a leading `-` where it is negative.
pub open spec fn decimal(v: int) -> Seq<char> {
    if v < 0 {
        seq!['-'] + digits_of((-v) as nat)
    } else {
        digits_of(v as nat)
    }
}

pub open spec fn is_digit(c: char) -> bool {
    '0' <= c && c <= '9'
}

pub open spec fn all_digits(s: Seq<char>) -> bool {
    forall|i: int| 0 <= i < s.len() ==> #[trigger] is_digit(s[i])
}

/// The value of a run of decimal digits.
pub open spec fn digits_value(s: Seq<char>) -> int
    decreases s.len(),
{
    if s.len() == 0 {
        0
    } else {
        digits_value(s.drop_last()) * 10 + (s.last() as int - 48)
    }
}

pub open spec fn in_i64(v: int) -> bool {
    i64::MIN <= v <= i64::MAX
}

/// What `str::parse::<i64>` gives: an optional sign, then one or more
/// digits, and a value that fits.
pub open spec fn parse_i64_spec(s: Seq<char>) -> Option<i64> {
    let negative = s.len() > 0 && s[0] == '-';
    let body = if s.len() > 0 && (s[0] == '-' || s[0] == '+') {
        s.drop_first()
    } else {
        s
    };
    let v = if negative {
        -digits_value(body)
    } else {
        digits_value(body)
    };
    if body.len() > 0 && all_digits(body) && in_i64(v) {
        Some(v as i64)
    } else {
        None
    }
}

fn digit_to_char(d: u64) -> (c: char)
    requires
        d < 10,
    ensures
        c == digit_char(d as int),
{
    ((d as u8) + 48u8) as char
}

/// The decimal digits of `n`.
pub fn u64_to_string(n: u64) -> (r: String)
    ensures
        r@ == decimal(n as int),
{
    let mut rest: u64 = n;
    let mut suffix: Vec<char> = Vec::new();
    proof {
        assert(digits_of(n as nat) =~= digits_of(rest as nat) + suffix@);
    }
    while rest >= 10
        invariant
            digits_of(n as nat) == digits_of(rest as nat) + suffix@,
        decreases rest,
    {
        let c = digit_to_char(rest % 10);
        let ghost before = suffix@;
        suffix.insert(0, c);
        proof {
            assert(digits_of(rest as nat) == digits_of((rest / 10) as nat).push(c));
            assert(digits_of((rest / 10) as nat).push(c) + before =~= digits_of((rest / 10) as nat)
                + suffix@);
        }
        rest = rest / 10;
    }
    let c = digit_to_char(rest);
    let ghost before = suffix@;
    suffix.insert(0, c);
    proof {
        assert(digits_of(rest as nat) =~= seq![c]);
        assert(seq![c] + before =~= suffix@);
    }
    let mut r = String::new();
    let mut i: usize = 0;
    while i < suffix.len()
        invariant
            i <= suffix@.len(),
            r@ == suffix@.take(i as int),
        decreases suffix@.len() - i,
    {
        push_char(&mut r, suffix[i]);
        proof {
            assert(suffix@.take(i as int).push(suffix@[i as int]) =~= suffix@.take(i as int + 1));
        }
        i = i + 1;
    }
    proof {
        assert(suffix@.take(suffix@.len() as int) =~= suffix@);
    }
    r
}

/// The decimal form of `v`, with a leading `-` where it is negative.
pub fn i64_to_string(v: i64) -> (r: String)
    ensures
        r@ == decimal(v as int),
{
    if v < 0 {
        let magnitude: u64 = (-(v as i128)) as u64;
        let digits = u64_to_string(magnitude);
        let mut r = String::new();
        push_char(&mut r, '-');
        r.append(digits.as_str());
        proof {
            assert(r@ =~= seq!['-'] + digits_of((-v) as nat));
        }
        r
    } else {
        u64_to_string(v as u64)
    }
}

proof fn lemma_digits_value_grows(s: Seq<char>, i: int)
    requires
        0 <= i <= s.len(),
        all_digits(s),
    ensures
        0 <= digits_value(s.subrange(0, i)) <= digits_value(s),
    decreases s.len() - i,
{
    if i < s.len() {
        lemma_digits_value_grows(s, i + 1);
        let t = s.subrange(0, i + 1);
        assert(t.drop_last() =~= s.subrange(0, i));
        assert(is_digit(s[i]));
    } else {
        assert(s.subrange(0, i) =~= s);
        lemma_digits_value_nonneg(s);
    }
}

proof fn lemma_digits_value_nonneg(s: Seq<char>)
    requires
        all_digits(s),
    ensures
        digits_value(s) >= 0,
    decreases s.len(),
{
    if s.len() > 0 {
        assert(all_digits(s.drop_last())) by {
            assert forall|k: int| 0 <= k < s.drop_last().len() implies #[trigger] is_digit(
                s.drop_last()[k],
            ) by {
                assert(is_digit(s[k]));
            }
        }
        lemma_digits_value_nonneg(s.drop_last());
        assert(is_digit(s[s.len() - 1]));
    }
}

/// Reads a decimal `i64`, as `str::parse::<i64>` does: an optional `+` or
/// `-`, then digits only, and a value within the type's range.
pub fn parse_i64(s: &str) -> (r: Option<i64>)
    ensures
        r == parse_i64_spec(s@),
{
    let n = s.unicode_len();
    if n == 0 {
        return None;
    }
    let c0 = s.get_char(0);
    let negative = c0 == '-';
    let start: usize = if c0 == '-' || c0 == '+' {
        1
    } else {
        0
    };
    let ghost body = if s@.len() > 0 && (s@[0] == '-' || s@[0] == '+') {
        s@.drop_first()
    } else {
        s@
    };
    proof {
        assert(body =~= s@.subrange(start as int, n as int));
    }
    if start >= n {
        return None;
    }
    let limit: u128 = 0x8000_0000_0000_0000;
    let mut acc: u128 = 0;
    let mut i: usize = start;
    proof {
        assert(body.subrange(0, 0) =~= Seq::<char>::empty());
    }
    while i < n
        invariant
            start <= i <= n == s@.len(),
            body == s@.subrange(start as int, n as int),
            all_digits(body.subrange(0, i - start)),
            acc == digits_value(body.subrange(0, i - start)),
            acc <= limit,
            limit == 0x8000_0000_0000_0000u128,
            body == (if s@.len() > 0 && (s@[0] == '-' || s@[0] == '+') {
                s@.drop_first()
            } else {
                s@
            }),
        decreases n - i,
    {
        let c = s.get_char(i);
        let ghost k: int = i - start;
        assert(body[k] == c);
        if !('0' <= c && c <= '9') {
            proof {
                assert(!is_digit(body[k]));
                assert(!all_digits(body));
            }
            return None;
        }
        let d: u128 = (c as u32 - 48) as u128;
        proof {
            let t = body.subrange(0, k + 1);
            assert(t.drop_last() =~= body.subrange(0, k));
            assert(t.last() == c);
            assert forall|j: int| 0 <= j < t.len() implies #[trigger] is_digit(t[j]) by {
                if j < k {
                    assert(t[j] == body.subrange(0, k)[j]);
                }
            }
        }
        acc = acc * 10 + d;
        i = i + 1;
        if acc > limit {
            proof {
                if all_digits(body) {
                    lemma_digits_value_grows(body, i - start);
                }
            }
            return None;
        }
    }
    proof {
        assert(body.subrange(0, n - start) =~= body);
    }
    if negative {
        Some((-(acc as i128)) as i64)
    } else if acc <= 0x7FFF_FFFF_FFFF_FFFF {
        Some(acc as i64)
    } else {
        None
    }
}

/// The decimal forms of `ids`, joined by commas.
pub open spec fn joined_ids(ids: Seq<i64>) -> Seq<char>
    decreases ids.len(),
{
    if ids.len() == 0 {
        Seq::empty()
    } else if ids.len() == 1 {
        decimal(ids[0] as int)
    } else {
        joined_ids(ids.drop_last()).push(',') + decimal(ids.last() as int)
    }
}

/// The `process-id` header value that a context is sent with, if any.
/// The `process-id` header value that a context is sent with; none where
/// there is no id to send.
pub open spec fn header_of(ctx: ContextModel) -> Option<Seq<char>> {
    match ctx {
        ContextModel::Empty => None,
        ContextModel::Single(id) => Some(decimal(id as int)),
        ContextModel::Multiple(ids) => if ids.len() == 0 {
            None
        } else {
            Some(joined_ids(ids))
        },
    }
}

/// The ids that `pieces` hold, in order, where every piece parses as one;
/// none where a piece does not.
pub open spec fn parsed_ids(pieces: Seq<Seq<char>>) -> Option<Seq<i64>>
    decreases pieces.len(),
{
    if pieces.len() == 0 {
        Some(Seq::empty())
    } else {
        match (parsed_ids(pieces.drop_last()), parse_i64_spec(pieces.last())) {
            (Some(ids), Some(v)) => Some(ids.push(v)),
            _ => None,
        }
    }
}

/// The context that a server reads from a `process-id` header value: a list
/// where the value holds a comma and every comma-separated piece is an id,
/// a single id where the value is one, and no context otherwise (no header,
/// or a malformed value).
pub open spec fn context_of_header(value: Option<Seq<char>>) -> ContextModel {
    match value {
        None => ContextModel::Empty,
        Some(h) => if h.contains(',') {
            match parsed_ids(split_on(h, ',')) {
                Some(ids) => ContextModel::Multiple(ids),
                None => ContextModel::Empty,
            }
        } else {
            match parse_i64_spec(h) {
                Some(v) => ContextModel::Single(v),
                None => ContextModel::Empty,
            }
        },
    }
}

proof fn lemma_parsed_ids_fail_extends(s: Seq<Seq<char>>, j: int, k: int)
    requires
        0 <= j <= k <= s.len(),
        parsed_ids(s.take(j)) is None,
    ensures
        parsed_ids(s.take(k)) is None,
    decreases k - j,
{
    if j < k {
        lemma_parsed_ids_fail_extends(s, j, k - 1);
        assert(s.take(k).drop_last() =~= s.take(k - 1));
    }
}

/// Adds the `process-id` header to outgoing calls.
pub struct GrpcClientInterceptor {
    ctx: TelemetryContext,
}

impl GrpcClientInterceptor {
    pub closed spec fn context(&self) -> ContextModel {
        self.ctx.model()
    }

    pub fn new(ctx: TelemetryContext) -> (r: Self)
        ensures
            r.context() == ctx.model(),
    {
        GrpcClientInterceptor { ctx }
    }

    /// The header value to send, `None` where there is nothing to send.
    pub fn to_string(&self) -> (r: Option<String>)
        ensures
            r matches Some(s) ==> header_of(self.context()) == Some(s@),
            r is None ==> header_of(self.context()) is None,
    {
        match &self.ctx {
            TelemetryContext::Single(process_id) => Some(i64_to_string(*process_id)),
            TelemetryContext::Multiple(ids) => {
                if ids.len() == 0 {
                    return None;
                }
                let mut result = String::new();
                let mut index: usize = 0;
                while index < ids.len()
                    invariant
                        index <= ids@.len(),
                        result@ == joined_ids(ids@.take(index as int)),
                    decreases ids@.len() - index,
                {
                    proof {
                        let t = ids@.take(index as int + 1);
                        assert(t.drop_last() =~= ids@.take(index as int));
                        assert(t.last() == ids@[index as int]);
                        if index == 0 {
                            assert(result@ =~= Seq::<char>::empty());
                        }
                    }
                    if index > 0 {
                        push_char(&mut result, ',');
                    }
                    let s = i64_to_string(ids[index]);
                    result.append(s.as_str());
                    proof {
                        if index == 0 {
                            assert(result@ =~= decimal(ids@[0] as int));
                        }
                    }
                    index = index + 1;
                }
                proof {
                    assert(ids@.take(ids@.len() as int) =~= ids@);
                }
                Some(result)
            },
            TelemetryContext::Empty => None,
        }
    }
}

/// Whether a `process-id` header value lists more than one id, that is,
/// whether it holds a comma.
pub fn has_multiple_ids(src: &[u8]) -> (r: bool)
    ensures
        r == src@.contains(44u8),
{
    let mut i: usize = 0;
    while i < src.len()
        invariant
            0 <= i <= src@.len(),
            forall|k: int| 0 <= k < i ==> src@[k] != 44u8,
        decreases src@.len() - i,
    {
        if src[i] == 44u8 {
            return true;
        }
        i = i + 1;
    }
    false
}

fn has_comma(s: &str) -> (r: bool)
    ensures
        r == s@.contains(','),
{
    let parts = split_by(s, ',');
    proof {
        lemma_split_single_iff(s@, ',');
    }
    parts.len() > 1
}

/// The context that a server takes from the `process-id` header value it
/// received, `None` where there was no such header.
pub fn telemetry_from_header(value: Option<&str>) -> (r: TelemetryContext)
    ensures
        r.model() == context_of_header(
            match value {
                Some(v) => Some(v@),
                None => None,
            },
        ),
{
    match value {
        None => TelemetryContext::Empty,
        Some(process_id) => {
            if has_comma(process_id) {
                let pieces = split_by(process_id, ',');
                let ghost views = pieces@.map_values(|p: &str| p@);
                let mut ids: Vec<i64> = Vec::new();
                let mut i: usize = 0;
                proof {
                    assert(views.take(0) =~= Seq::<Seq<char>>::empty());
                }
                while i < pieces.len()
                    invariant
                        i <= pieces@.len(),
                        views == pieces@.map_values(|p: &str| p@),
                        parsed_ids(views.take(i as int)) == Some(ids@),
                        views == split_on(process_id@, ','),
                        process_id@.contains(','),
                        value == Some(process_id),
                    decreases pieces@.len() - i,
                {
                    proof {
                        let t = views.take(i as int + 1);
                        assert(t.drop_last() =~= views.take(i as int));
                        assert(t.last() == pieces@[i as int]@);
                    }
                    match parse_i64(pieces[i]) {
                        Some(id) => ids.push(id),
                        None => {
                            proof {
                                assert(parsed_ids(views.take(i as int + 1)) is None);
                                lemma_parsed_ids_fail_extends(
                                    views,
                                    i as int + 1,
                                    views.len() as int,
                                );
                                assert(views.take(views.len() as int) =~= views);
                            }
                            return TelemetryContext::Empty;
                        },
                    }
                    i = i + 1;
                }
                proof {
                    assert(views.take(pieces@.len() as int) =~= views);
                }
                TelemetryContext::Multiple(ids)
            } else {
                match parse_i64(process_id) {
                    Some(id) => TelemetryContext::Single(id),
                    None => TelemetryContext::Empty,
                }
            }
        },
    }
}

/// `split_on` gives a single piece exactly when there is no separator.
pub proof fn lemma_split_single_iff(s: Seq<char>, sep: char)
    ensures
        (split_on(s, sep).len() == 1) == !s.contains(sep),
        split_on(s, sep).len() >= 1,
    decreases s.len(),
{
    if s.len() > 0 {
        lemma_split_single_iff(s.drop_last(), sep);
        if s.drop_last().contains(sep) {
            let i = choose|i: int| 0 <= i < s.drop_last().len() && s.drop_last()[i] == sep;
            assert(s[i] == sep);
        }
        if s.last() == sep {
            assert(s[s.len() - 1] == sep);
        }
        if s.contains(sep) && s.last() != sep {
            let i = choose|i: int| 0 <= i < s.len() && s[i] == sep;
            assert(s.drop_last()[i] == sep);
        }
    }
}

proof fn lemma_digits(n: nat)
    ensures
        digits_of(n).len() > 0,
        all_digits(digits_of(n)),
        digits_value(digits_of(n)) == n,
    decreases n,
{
    if n >= 10 {
        lemma_digits(n / 10);
        let p = digits_of(n / 10);
        let s = p.push(digit_char((n % 10) as int));
        assert(s.drop_last() =~= p);
        assert(digit_char((n % 10) as int) as int == (n % 10) + 48);
        assert(n == (n / 10) * 10 + n % 10);
        assert(s == digits_of(n));
        assert(s.last() as int - 48 == n % 10);
        assert(digits_value(s) == digits_value(p) * 10 + (s.last() as int - 48));
        assert forall|i: int| 0 <= i < s.len() implies #[trigger] is_digit(s[i]) by {
            if i < p.len() {
                assert(is_digit(p[i]));
            }
        }
    } else {
        let s = seq![digit_char(n as int)];
        assert(s.drop_last() =~= Seq::<char>::empty());
        assert(digit_char(n as int) as int == n + 48);
        assert(s == digits_of(n));
        assert(digits_value(s) == digits_value(s.drop_last()) * 10 + (s.last() as int - 48));
    }
}

proof fn lemma_decimal_parses(v: i64)
    ensures
        parse_i64_spec(decimal(v as int)) == Some(v),
        !decimal(v as int).contains(','),
{
    if v < 0 {
        let d = digits_of((-v) as nat);
        lemma_digits((-v) as nat);
        let s = seq!['-'] + d;
        assert(s.drop_first() =~= d);
        assert(s[0] == '-');
        if s.contains(',') {
            let i = choose|i: int| 0 <= i < s.len() && s[i] == ',';
            assert(is_digit(d[i - 1]));
        }
    } else {
        let d = digits_of(v as nat);
        lemma_digits(v as nat);
        assert(is_digit(d[0]));
        if d.contains(',') {
            let i = choose|i: int| 0 <= i < d.len() && d[i] == ',';
            assert(is_digit(d[i]));
        }
    }
}

proof fn lemma_split_without_sep(b: Seq<char>, sep: char)
    requires
        !b.contains(sep),
    ensures
        split_on(b, sep) == seq![b],
    decreases b.len(),
{
    if b.len() > 0 {
        if b.drop_last().contains(sep) {
            let i = choose|i: int| 0 <= i < b.drop_last().len() && b.drop_last()[i] == sep;
            assert(b[i] == sep);
        }
        assert(b[b.len() - 1] != sep);
        lemma_split_without_sep(b.drop_last(), sep);
        assert(b.drop_last().push(b.last()) =~= b);
        assert(seq![b.drop_last()].update(0, b.drop_last().push(b.last())) =~= seq![b]);
    } else {
        assert(b =~= Seq::<char>::empty());
    }
}

proof fn lemma_split_after_sep(a: Seq<char>, b: Seq<char>, sep: char)
    requires
        !b.contains(sep),
    ensures
        split_on(a.push(sep) + b, sep) == split_on(a, sep).push(b),
    decreases b.len(),
{
    if b.len() == 0 {
        assert(b =~= Seq::<char>::empty());
        assert(a.push(sep) + b =~= a.push(sep));
        assert(a.push(sep).drop_last() =~= a);
    } else {
        let b2 = b.drop_last();
        if b2.contains(sep) {
            let i = choose|i: int| 0 <= i < b2.len() && b2[i] == sep;
            assert(b[i] == sep);
        }
        assert(b[b.len() - 1] != sep);
        lemma_split_after_sep(a, b2, sep);
        let whole = a.push(sep) + b;
        assert(whole.drop_last() =~= a.push(sep) + b2);
        assert(whole.last() == b.last());
        assert(b2.push(b.last()) =~= b);
        lemma_split_single_iff(a, sep);
        assert(split_on(a, sep).push(b2).update(split_on(a, sep).len() as int, b2.push(b.last()))
            =~= split_on(a, sep).push(b));
    }
}

proof fn lemma_joined_split(ids: Seq<i64>)
    requires
        ids.len() >= 1,
    ensures
        split_on(joined_ids(ids), ',') == ids.map_values(|v: i64| decimal(v as int)),
    decreases ids.len(),
{
    if ids.len() == 1 {
        lemma_decimal_parses(ids[0]);
        lemma_split_without_sep(decimal(ids[0] as int), ',');
        assert(ids.map_values(|v: i64| decimal(v as int)) =~= seq![decimal(ids[0] as int)]);
    } else {
        lemma_joined_split(ids.drop_last());
        lemma_decimal_parses(ids.last());
        lemma_split_after_sep(joined_ids(ids.drop_last()), decimal(ids.last() as int), ',');
        assert(ids.map_values(|v: i64| decimal(v as int)) =~= ids.drop_last().map_values(
            |v: i64| decimal(v as int),
        ).push(decimal(ids.last() as int)));
    }
}

proof fn lemma_parsed_decimals(ids: Seq<i64>)
    ensures
        parsed_ids(ids.map_values(|v: i64| decimal(v as int))) == Some(ids),
    decreases ids.len(),
{
    let ps = ids.map_values(|v: i64| decimal(v as int));
    if ids.len() > 0 {
        lemma_parsed_decimals(ids.drop_last());
        lemma_decimal_parses(ids.last());
        assert(ps.drop_last() =~= ids.drop_last().map_values(|v: i64| decimal(v as int)));
        assert(ps.last() == decimal(ids.last() as int));
        assert(ids.drop_last().push(ids.last()) =~= ids);
    } else {
        assert(ids =~= Seq::<i64>::empty());
    }
}

/// Reading back the header that a context is sent with gives that context,
/// for no context, a single id, and a list of two ids or more. (A list of
/// one id reads back as a single id, an empty list as no context.)
pub proof fn lemma_header_round_trip(ctx: ContextModel)
    requires
        ctx matches ContextModel::Multiple(ids) ==> ids.len() >= 2,
    ensures
        context_of_header(header_of(ctx)) == ctx,
{
    match ctx {
        ContextModel::Empty => {},
        ContextModel::Single(id) => {
            lemma_decimal_parses(id);
        },
        ContextModel::Multiple(ids) => {
            let h = joined_ids(ids);
            let a = joined_ids(ids.drop_last());
            assert(h[a.len() as int] == ',');
            lemma_joined_split(ids);
            lemma_parsed_decimals(ids);
        },
    }
}

} // verus!
