//! The resource protocol maps broker subjects to requests: the verb and
//! the resource id are read off the subject alone.  `get.<rid>` reads,
//! `call.<rid>.set` upserts a model, `call.<rid>.new` appends to a
//! collection, `call.<rid>.delete` removes, `access.<rid>` asks for
//! authorization, and any other `call.<rid>.<method>` is a custom method.

use vstd::prelude::*;
use vstd::string::*;

use crate::text::{starts_with, ends_with, split_str, join_strings, spec_starts_with,
    spec_ends_with, spec_split, spec_join, first_sep, lemma_first_sep, lemma_split_len};

verus! {

/// The intent of a resource protocol request, as described by a broker
/// subject.
#[derive(Debug, PartialEq)]
pub enum ResProtocolRequest {
    Get(String),
    New(String),
    SetValue(String),
    Delete(String),
    Access(String),
    Call(String, String),
    Unknown,
}

/// Spec-level image of a [`ResProtocolRequest`].
pub ghost enum ReqV {
    Get(Seq<char>),
    New(Seq<char>),
    SetValue(Seq<char>),
    Delete(Seq<char>),
    Access(Seq<char>),
    Call(Seq<char>, Seq<char>),
    Unknown,
}

impl View for ResProtocolRequest {
    type V = ReqV;

    open spec fn view(&self) -> ReqV {
        match self {
            ResProtocolRequest::Get(rid) => ReqV::Get(rid@),
            ResProtocolRequest::New(rid) => ReqV::New(rid@),
            ResProtocolRequest::SetValue(rid) => ReqV::SetValue(rid@),
            ResProtocolRequest::Delete(rid) => ReqV::Delete(rid@),
            ResProtocolRequest::Access(rid) => ReqV::Access(rid@),
            ResProtocolRequest::Call(rid, method) => ReqV::Call(rid@, method@),
            ResProtocolRequest::Unknown => ReqV::Unknown,
        }
    }
}

/// What subject text each request stands for.
pub open spec fn spec_to_string(r: ReqV) -> Seq<char> {
    match r {
        ReqV::Get(rid) => "get."@ + rid,
        ReqV::New(rid) => "call."@ + rid + ".new"@,
        ReqV::SetValue(rid) => "call."@ + rid + ".set"@,
        ReqV::Delete(rid) => "call."@ + rid + ".delete"@,
        ReqV::Access(rid) => "access."@ + rid,
        ReqV::Call(rid, method) => "call."@ + rid + "."@ + method,
        ReqV::Unknown => "??"@,
    }
}

/// The request a subject describes.  A subject that matches none of the
/// supported shapes is `Unknown`.
pub open spec fn spec_parse(s: Seq<char>) -> ReqV {
    if spec_starts_with(s, "get."@) {
        ReqV::Get(s.subrange(4, s.len() as int))
    } else if spec_starts_with(s, "call."@) && s.len() >= 9 && spec_ends_with(s, ".new"@) {
        ReqV::New(s.subrange(5, s.len() - 4))
    } else if spec_starts_with(s, "call."@) && s.len() >= 9 && spec_ends_with(s, ".set"@) {
        ReqV::SetValue(s.subrange(5, s.len() - 4))
    } else if spec_starts_with(s, "access."@) {
        ReqV::Access(s.subrange(7, s.len() as int))
    } else if spec_starts_with(s, "call."@) && s.len() >= 12 && spec_ends_with(s, ".delete"@) {
        ReqV::Delete(s.subrange(5, s.len() - 7))
    } else if spec_starts_with(s, "call."@) {
        let toks = spec_split(s, '.');
        if toks.len() >= 3 {
            ReqV::Call(spec_join(toks.subrange(1, toks.len() - 1), '.'), toks.last())
        } else {
            ReqV::Unknown
        }
    } else {
        ReqV::Unknown
    }
}

impl ResProtocolRequest {
    /// Parses a broker subject into the request it describes.
    pub fn from(source: &str) -> (r: ResProtocolRequest)
        ensures
            r@ == spec_parse(source@),
    {
        let n = source.unicode_len();
        if starts_with(source, "get.") {
            proof {
                reveal_strlit("get.");
            }
            ResProtocolRequest::Get(source.substring_char(4, n).to_owned())
        } else if starts_with(source, "call.") && n >= 9 && ends_with(source, ".new") {
            proof {
                reveal_strlit("call.");
                reveal_strlit(".new");
            }
            ResProtocolRequest::New(source.substring_char(5, n - 4).to_owned())
        } else if starts_with(source, "call.") && n >= 9 && ends_with(source, ".set") {
            proof {
                reveal_strlit("call.");
                reveal_strlit(".set");
            }
            ResProtocolRequest::SetValue(source.substring_char(5, n - 4).to_owned())
        } else if starts_with(source, "access.") {
            proof {
                reveal_strlit("access.");
            }
            ResProtocolRequest::Access(source.substring_char(7, n).to_owned())
        } else if starts_with(source, "call.") && n >= 12 && ends_with(source, ".delete") {
            proof {
                reveal_strlit("call.");
                reveal_strlit(".delete");
            }
            ResProtocolRequest::Delete(source.substring_char(5, n - 7).to_owned())
        } else if starts_with(source, "call.") {
            let toks = split_str(source, '.');
            if toks.len() >= 3 {
                let mut mid: Vec<String> = Vec::new();
                let mut i: usize = 1;
                while i < toks.len() - 1
                    invariant
                        1 <= i <= toks.len() - 1,
                        toks.len() >= 3,
                        mid@.len() == i - 1,
                        forall|t: int| 0 <= t < i - 1 ==> #[trigger] mid@[t]@ == toks@[t + 1]@,
                    decreases toks.len() - 1 - i,
                {
                    let item: &String = &toks[i];
                    mid.push(item.clone());
                    i += 1;
                }
                proof {
                    reveal_strlit(".");
                    assert forall|t: int| 0 <= t < mid@.len() implies mid.deep_view()[t]
                        == toks.deep_view().subrange(1, toks.len() - 1)[t] by {
                        assert(mid@[t]@ == toks@[t + 1]@);
                    }
                    assert(mid.deep_view() =~= toks.deep_view().subrange(1, toks.len() - 1));
                }
                let rid = join_strings(&mid, ".");
                let method_ref: &String = &toks[toks.len() - 1];
                let method = method_ref.clone();
                proof {
                    assert(toks.deep_view().last() == toks@[toks.len() - 1].deep_view());
                }
                ResProtocolRequest::Call(rid, method)
            } else {
                ResProtocolRequest::Unknown
            }
        } else {
            ResProtocolRequest::Unknown
        }
    }

    /// The subject text this request stands for.
    pub fn to_string(&self) -> (r: String)
        ensures
            r@ == spec_to_string(self@),
    {
        match self {
            ResProtocolRequest::Get(rid) => {
                let mut r: String = "get.".to_owned();
                r.append(rid.as_str());
                r
            },
            ResProtocolRequest::New(rid) => {
                let mut r: String = "call.".to_owned();
                r.append(rid.as_str());
                r.append(".new");
                r
            },
            ResProtocolRequest::SetValue(rid) => {
                let mut r: String = "call.".to_owned();
                r.append(rid.as_str());
                r.append(".set");
                r
            },
            ResProtocolRequest::Delete(rid) => {
                let mut r: String = "call.".to_owned();
                r.append(rid.as_str());
                r.append(".delete");
                r
            },
            ResProtocolRequest::Access(rid) => {
                let mut r: String = "access.".to_owned();
                r.append(rid.as_str());
                r
            },
            ResProtocolRequest::Call(rid, method) => {
                let mut r: String = "call.".to_owned();
                r.append(rid.as_str());
                r.append(".");
                r.append(method.as_str());
                r
            },
            ResProtocolRequest::Unknown => "??".to_owned(),
        }
    }
}

/// A subject is legal when it has one of the six supported shapes.
pub open spec fn legal_subject(s: Seq<char>) -> bool {
    ||| spec_starts_with(s, "get."@)
    ||| spec_starts_with(s, "access."@)
    ||| (spec_starts_with(s, "call."@) && s.len() >= 9 && spec_ends_with(s, ".new"@))
    ||| (spec_starts_with(s, "call."@) && s.len() >= 9 && spec_ends_with(s, ".set"@))
    ||| (spec_starts_with(s, "call."@) && s.len() >= 12 && spec_ends_with(s, ".delete"@))
    ||| (spec_starts_with(s, "call."@) && spec_split(s, '.').len() >= 3)
}

/// Joining the split of a text on a separator gives the text back.
pub proof fn lemma_join_split(s: Seq<char>, c: char)
    ensures
        spec_join(spec_split(s, c), c) == s,
    decreases s.len(),
{
    lemma_first_sep(s, c);
    let i = first_sep(s, c);
    if i >= s.len() {
    } else {
        let tail = s.subrange(i as int + 1, s.len() as int);
        lemma_split_len(tail, c);
        lemma_join_split(tail, c);
        let parts = spec_split(s, c);
        assert(parts.drop_first() =~= spec_split(tail, c));
        assert(spec_join(parts, c) =~= s.subrange(0, i as int) + seq![c] + tail);
        assert(s.subrange(0, i as int) + seq![c] + tail =~= s);
    }
}

/// Joining separates the last token from the rest with one separator.
pub proof fn lemma_join_last(parts: Seq<Seq<char>>, c: char)
    requires
        parts.len() >= 2,
    ensures
        spec_join(parts, c) == spec_join(parts.drop_last(), c) + seq![c] + parts.last(),
    decreases parts.len(),
{
    if parts.len() == 2 {
        assert(parts.drop_first() =~= seq![parts[1]]);
        assert(parts.drop_last() =~= seq![parts[0]]);
        assert(spec_join(parts.drop_first(), c) == parts[1]) by {
            assert(parts.drop_first().len() == 1);
            assert(parts.drop_first()[0] == parts[1]);
        }
        assert(spec_join(parts.drop_last(), c) == parts[0]) by {
            assert(parts.drop_last().len() == 1);
            assert(parts.drop_last()[0] == parts[0]);
        }
        assert(parts.last() == parts[1]);
    } else {
        lemma_join_last(parts.drop_first(), c);
        assert(parts.drop_first().drop_last() =~= parts.drop_last().drop_first());
        assert(parts.drop_first().last() == parts.last());
        assert(parts.drop_last()[0] == parts[0]);
        assert(spec_join(parts.drop_last(), c) == parts[0] + seq![c] + spec_join(
            parts.drop_last().drop_first(),
            c,
        ));
        assert(spec_join(parts, c) =~= spec_join(parts.drop_last(), c) + seq![c] + parts.last());
    }
}

/// Round trip: printing the request parsed from any legal subject gives
/// the subject back.
pub proof fn lemma_subject_roundtrip(s: Seq<char>)
    requires
        legal_subject(s),
    ensures
        spec_to_string(spec_parse(s)) == s,
{
    reveal_strlit("get.");
    reveal_strlit("access.");
    reveal_strlit("call.");
    reveal_strlit(".new");
    reveal_strlit(".set");
    reveal_strlit(".delete");
    reveal_strlit(".");
    if spec_starts_with(s, "get."@) {
        assert("get."@ + s.subrange(4, s.len() as int) =~= s);
    } else if spec_starts_with(s, "call."@) && s.len() >= 9 && spec_ends_with(s, ".new"@) {
        assert("call."@ + s.subrange(5, s.len() - 4) + ".new"@ =~= s);
    } else if spec_starts_with(s, "call."@) && s.len() >= 9 && spec_ends_with(s, ".set"@) {
        assert("call."@ + s.subrange(5, s.len() - 4) + ".set"@ =~= s);
    } else if spec_starts_with(s, "access."@) {
        assert("access."@ + s.subrange(7, s.len() as int) =~= s);
    } else if spec_starts_with(s, "call."@) && s.len() >= 12 && spec_ends_with(s, ".delete"@) {
        assert("call."@ + s.subrange(5, s.len() - 7) + ".delete"@ =~= s);
    } else {
        assert(spec_starts_with(s, "call."@) && spec_split(s, '.').len() >= 3);
        let toks = spec_split(s, '.');
        lemma_join_split(s, '.');
        lemma_join_last(toks, '.');
        lemma_first_sep(s, '.');
        let f = first_sep(s, '.');
        assert(f == 4) by {
            assert(s.subrange(0, 5) == "call."@);
            assert(s.subrange(0, 5)[4] == s[4]);
            assert("call."@[4] == '.');
            assert(s[4] == '.');
            if f < 4 {
                assert(s[f as int] == '.');
                assert(s[f as int] == "call."@[f as int]);
            } else if f > 4 {
                assert(s[4] != '.');
            }
        }
        assert(toks[0] == s.subrange(0, 4));
        let mid = toks.subrange(1, toks.len() - 1);
        assert(toks.drop_last().drop_first() =~= mid);
        assert(toks.drop_last().len() >= 2);
        assert(spec_join(toks.drop_last(), '.') == toks[0] + seq!['.'] + spec_join(mid, '.')) by {
            assert(toks.drop_last()[0] == toks[0]);
            assert(toks.drop_last().drop_first() =~= mid);
        }
        assert(spec_to_string(spec_parse(s)) =~= toks[0] + seq!['.'] + spec_join(mid, '.')
            + seq!['.'] + toks.last()) by {
            assert("call."@ =~= s.subrange(0, 4) + seq!['.']);
        }
        assert(spec_to_string(spec_parse(s)) =~= spec_join(toks, '.'));
    }
}

} // verus!
