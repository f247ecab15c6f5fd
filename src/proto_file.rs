use vstd::prelude::*;
use vstd::string::*;

use crate::param_type::{parse_param_spec, ParamType};
use crate::proto_tokens::{proto_tokens, ProtoTokensReader};
use crate::text::{push_char, str_eq};

verus! {

/// Whether Unicode counts `c` as upper case (`char::is_uppercase`).
pub uninterp spec fn upper_case(c: char) -> bool;

/// The first character of the lower-case mapping of `c` (`char::to_lowercase`).
pub uninterp spec fn lower_first(c: char) -> char;

/// Whether `c` is upper case: the ASCII letters `A` to `Z` among ASCII
/// characters, Unicode's `Uppercase` property beyond.
pub open spec fn is_upper(c: char) -> bool {
    if (c as u32) < 128 {
        'A' <= c && c <= 'Z'
    } else {
        upper_case(c)
    }
}

/// The first character of the lower case of `c`: `a` to `z` for `A` to `Z`.
pub open spec fn to_lower(c: char) -> char {
    if 'A' <= c && c <= 'Z' {
        ((c as u32) + 32) as char
    } else {
        lower_first(c)
    }
}

/// Relies on `char::is_uppercase`: the `Uppercase` property, which among
/// ASCII characters holds of `A` to `Z` alone.
#[verifier::external_body]
fn char_is_uppercase(c: char) -> (r: bool)
    ensures
        (c as u32) >= 128 ==> r == upper_case(c),
        (c as u32) < 128 ==> r == ('A' <= c && c <= 'Z'),
{
    c.is_uppercase()
}

/// Relies on `char::to_lowercase`, whose iterator yields at least one
/// character (`c` itself where it has no mapping) and maps `A` to `Z` to
/// `a` to `z`.
#[verifier::external_body]
fn char_lower_first(c: char) -> (r: char)
    ensures
        !('A' <= c && c <= 'Z') ==> r == lower_first(c),
        ('A' <= c && c <= 'Z') ==> r == ((c as u32) + 32) as char,
{
    c.to_lowercase().next().unwrap_or(c)
}

/// `src` in snake case: each upper-case character is replaced by its lower
/// case, with an underscore before it unless it comes first.
pub open spec fn snake_case(src: Seq<char>) -> Seq<char>
    decreases src.len(),
{
    if src.len() == 0 {
        Seq::empty()
    } else {
        let p = snake_case(src.drop_last());
        let c = src.last();
        if is_upper(c) {
            if src.len() > 1 {
                p.push('_').push(to_lower(c))
            } else {
                p.push(to_lower(c))
            }
        } else {
            p.push(c)
        }
    }
}

pub fn into_snake_case(src: &str) -> (r: String)
    ensures
        r@ == snake_case(src@),
{
    let n = src.unicode_len();
    let mut result = String::new();
    let mut i: usize = 0;
    proof {
        assert(src@.subrange(0, 0) =~= Seq::<char>::empty());
    }
    while i < n
        invariant
            i <= n == src@.len(),
            result@ == snake_case(src@.subrange(0, i as int)),
        decreases n - i,
    {
        let ch = src.get_char(i);
        proof {
            let t = src@.subrange(0, i as int + 1);
            assert(t.drop_last() =~= src@.subrange(0, i as int));
            assert(t.last() == ch);
        }
        if char_is_uppercase(ch) {
            if i != 0 {
                push_char(&mut result, '_');
            }
            push_char(&mut result, char_lower_first(ch));
        } else {
            push_char(&mut result, ch);
        }
        i = i + 1;
    }
    proof {
        assert(src@.subrange(0, n as int) =~= src@);
    }
    result
}

/// A borrowed name read from a proto file.
pub struct ProtoString<'s>(&'s str);

impl<'s> ProtoString<'s> {
    pub closed spec fn view(&self) -> Seq<char> {
        self.0@
    }

    pub fn as_snake_case(&self) -> (r: String)
        ensures
            r@ == snake_case(self.view()),
    {
        into_snake_case(self.0)
    }

    pub fn as_str(&self) -> (r: &'s str)
        ensures
            r@ == self.view(),
    {
        self.0
    }
}

/// One rpc of a service: its name and the text of its parameter and of its
/// result.
#[derive(Debug)]
pub struct ProtoRpc {
    pub name: String,
    input_param: String,
    output_param: String,
}

impl ProtoRpc {
    pub closed spec fn spec_name(&self) -> Seq<char> {
        self.name@
    }

    pub closed spec fn spec_input(&self) -> Seq<char> {
        self.input_param@
    }

    pub closed spec fn spec_output(&self) -> Seq<char> {
        self.output_param@
    }

    /// Name, parameter text and result text.
    pub closed spec fn spec_parts(&self) -> (Seq<char>, Seq<char>, Seq<char>) {
        (self.spec_name(), self.spec_input(), self.spec_output())
    }

    pub fn get_fn_name(&self) -> (r: ProtoString<'_>)
        ensures
            r.view() == self.spec_name(),
    {
        ProtoString(self.name.as_str())
    }

    pub fn get_input_param(&self) -> (r: Option<ParamType<'_>>)
        ensures
            r matches Some(p) ==> parse_param_spec(self.spec_input()) == Some(p.spec_parts()),
            r is None ==> parse_param_spec(self.spec_input()) is None,
    {
        ParamType::parse(self.input_param.as_str())
    }

    pub fn get_output_param(&self) -> (r: Option<ParamType<'_>>)
        ensures
            r matches Some(p) ==> parse_param_spec(self.spec_output()) == Some(p.spec_parts()),
            r is None ==> parse_param_spec(self.spec_output()) is None,
    {
        ParamType::parse(self.output_param.as_str())
    }
}

/// A service read from a proto file: its name and its rpcs, `Ping` left out.
#[derive(Debug)]
pub struct ProtoServiceDescription {
    pub service_name: String,
    pub rpc: Vec<ProtoRpc>,
}

/// Where the reader of a proto file stands.
pub enum CurrentToken {
    Nothing,
    Service,
    Rpc,
    RpcExpectingInputParameter,
    RpcExpectingOutputParameter,
}

/// What has been read of a proto file so far.
pub struct ProtoScan {
    pub service: Option<Seq<char>>,
    pub state: CurrentToken,
    pub rpc_name: Seq<char>,
    pub input: Seq<char>,
    pub output: Seq<char>,
    pub rpcs: Seq<(Seq<char>, Seq<char>, Seq<char>)>,
}

/// `acc` with `word` added, a space between them where `acc` is not empty.
pub open spec fn add_word(acc: Seq<char>, word: Seq<char>) -> Seq<char> {
    if acc.len() > 0 {
        acc.push(' ') + word
    } else {
        word
    }
}

/// The reader's step on one token.
pub open spec fn scan_step(s: ProtoScan, t: Seq<char>) -> ProtoScan {
    match s.state {
        CurrentToken::Nothing => if t == "service"@ {
            ProtoScan { state: CurrentToken::Service, ..s }
        } else if t == "rpc"@ {
            ProtoScan { state: CurrentToken::Rpc, ..s }
        } else {
            s
        },
        CurrentToken::Rpc => ProtoScan {
            state: CurrentToken::RpcExpectingInputParameter,
            rpc_name: t,
            input: Seq::empty(),
            output: Seq::empty(),
            ..s
        },
        CurrentToken::RpcExpectingInputParameter => if t == "("@ {
            s
        } else if t == ")"@ {
            ProtoScan { state: CurrentToken::RpcExpectingOutputParameter, ..s }
        } else {
            ProtoScan { input: add_word(s.input, t), ..s }
        },
        CurrentToken::RpcExpectingOutputParameter => if t == "returns"@ || t == "("@ || t
            == ")"@ {
            s
        } else if t == ";"@ {
            ProtoScan {
                state: CurrentToken::Nothing,
                rpcs: if s.rpc_name != "Ping"@ {
                    s.rpcs.push((s.rpc_name, s.input, s.output))
                } else {
                    s.rpcs
                },
                output: add_word(s.output, t),
                ..s
            }
        } else {
            ProtoScan { output: add_word(s.output, t), ..s }
        },
        CurrentToken::Service => ProtoScan { service: Some(t), state: CurrentToken::Nothing, ..s },
    }
}

pub open spec fn scan_start() -> ProtoScan {
    ProtoScan {
        service: None,
        state: CurrentToken::Nothing,
        rpc_name: Seq::empty(),
        input: Seq::empty(),
        output: Seq::empty(),
        rpcs: Seq::empty(),
    }
}

/// The reader's state after the given tokens.
pub open spec fn scan_tokens(tokens: Seq<Seq<char>>) -> ProtoScan
    decreases tokens.len(),
{
    if tokens.len() == 0 {
        scan_start()
    } else {
        scan_step(scan_tokens(tokens.drop_last()), tokens.last())
    }
}

impl ProtoServiceDescription {
    pub fn get_service_name(&self) -> (r: &str)
        ensures
            r@ == self.service_name@,
    {
        self.service_name.as_str()
    }

    pub fn has_method(&self, method_name: &str) -> (r: bool)
        ensures
            r == exists|i: int| 0 <= i < self.rpc@.len() && #[trigger] self.rpc@[i].spec_name() == method_name@,
    {
        let mut i: usize = 0;
        while i < self.rpc.len()
            invariant
                i <= self.rpc@.len(),
                forall|j: int| 0 <= j < i ==> #[trigger] self.rpc@[j].spec_name() != method_name@,
            decreases self.rpc@.len() - i,
        {
            if str_eq(self.rpc[i].name.as_str(), method_name) {
                assert(self.rpc@[i as int].spec_name() == method_name@);
                return true;
            }
            i = i + 1;
        }
        false
    }

    /// Reads a service out of the text of a proto file; `None` where it names
    /// no service.
    pub fn parse_proto(content: &str) -> (r: Option<Self>)
        ensures
            ({
                let s = scan_tokens(proto_tokens(content@));
                match r {
                    None => s.service is None,
                    Some(d) => {
                        &&& s.service == Some(d.service_name@)
                        &&& d.rpc@.map_values(|x: ProtoRpc| x.spec_parts()) == s.rpcs
                    },
                }
            }),
    {
        let ghost tokens = proto_tokens(content@);
        let mut reader = ProtoTokensReader::new(content);
        let mut service_name: Option<String> = None;
        let mut current_token = CurrentToken::Nothing;
        let mut rpc_name = String::new();
        let mut input_param_name = String::new();
        let mut out_param_name = String::new();
        let mut rpc: Vec<ProtoRpc> = Vec::new();
        let ghost mut count: int = 0;
        proof {
            assert(tokens.take(0) =~= Seq::<Seq<char>>::empty());
            assert(tokens.skip(0) =~= tokens);
            assert(rpc@.map_values(|x: ProtoRpc| x.spec_parts()) =~= Seq::<
                (Seq<char>, Seq<char>, Seq<char>),
            >::empty());
        }
        loop
            invariant
                reader.wf(),
                0 <= count <= tokens.len(),
                reader.remaining() == tokens.skip(count),
                ({
                    let s = scan_tokens(tokens.take(count));
                    &&& s.service == match service_name {
                        Some(x) => Some(x@),
                        None => None::<Seq<char>>,
                    }
                    &&& s.state == current_token
                    &&& s.rpc_name == rpc_name@
                    &&& s.input == input_param_name@
                    &&& s.output == out_param_name@
                    &&& s.rpcs == rpc@.map_values(|x: ProtoRpc| x.spec_parts())
                }),
            ensures
                count == tokens.len(),
                ({
                    let s = scan_tokens(tokens.take(count));
                    &&& s.service == match service_name {
                        Some(x) => Some(x@),
                        None => None::<Seq<char>>,
                    }
                    &&& s.state == current_token
                    &&& s.rpc_name == rpc_name@
                    &&& s.input == input_param_name@
                    &&& s.output == out_param_name@
                    &&& s.rpcs == rpc@.map_values(|x: ProtoRpc| x.spec_parts())
                }),
            decreases tokens.len() - count,
        {
            let token = match reader.get_next() {
                Some(t) => t,
                None => {
                    proof {
                        assert(tokens.skip(count).len() == 0);
                    }
                    break ;
                },
            };
            proof {
                assert(tokens.skip(count)[0] == tokens[count]);
                assert(tokens.skip(count).drop_first() =~= tokens.skip(count + 1));
                let t2 = tokens.take(count + 1);
                assert(t2.drop_last() =~= tokens.take(count));
                assert(t2.last() == tokens[count]);
                reveal_strlit(" ");
            }
            match current_token {
                CurrentToken::Nothing => {
                    if str_eq(token, "service") {
                        current_token = CurrentToken::Service;
                    } else if str_eq(token, "rpc") {
                        current_token = CurrentToken::Rpc;
                    }
                },
                CurrentToken::Rpc => {
                    rpc_name = String::from_str(token);
                    input_param_name = String::new();
                    out_param_name = String::new();
                    current_token = CurrentToken::RpcExpectingInputParameter;
                },
                CurrentToken::RpcExpectingInputParameter => {
                    if str_eq(token, "(") {
                    } else if str_eq(token, ")") {
                        current_token = CurrentToken::RpcExpectingOutputParameter;
                    } else {
                        if input_param_name.unicode_len() > 0 {
                            input_param_name.append(" ");
                        }
                        input_param_name.append(token);
                    }
                },
                CurrentToken::RpcExpectingOutputParameter => {
                    if str_eq(token, "returns") || str_eq(token, "(") || str_eq(token, ")") {
                    } else {
                        if str_eq(token, ";") {
                            if !str_eq(rpc_name.as_str(), "Ping") {
                                let item = ProtoRpc {
                                    name: rpc_name.clone(),
                                    input_param: input_param_name.clone(),
                                    output_param: out_param_name.clone(),
                                };
                                rpc.push(item);
                                proof {
                                    assert(rpc@.map_values(|x: ProtoRpc| x.spec_parts()) =~= scan_tokens(
                                        tokens.take(count),
                                    ).rpcs.push(item.spec_parts()));
                                }
                            }
                            current_token = CurrentToken::Nothing;
                        }
                        if out_param_name.unicode_len() > 0 {
                            out_param_name.append(" ");
                        }
                        out_param_name.append(token);
                    }
                },
                CurrentToken::Service => {
                    service_name = Some(String::from_str(token));
                    current_token = CurrentToken::Nothing;
                },
            }
            proof {
                count = count + 1;
            }
        }
        proof {
            assert(tokens.take(count) =~= tokens);
        }
        match service_name {
            Some(name) => Some(ProtoServiceDescription { service_name: name, rpc }),
            None => None,
        }
    }
}

} // verus!
