//! Tokenizer for the tag-structured segment-map documents.
//!
//! The document is a byte string.  Tokenization turns it into a flat
//! stream of events: an element start (with its attributes), an element
//! end, or a run of non-whitespace character data.  Processing
//! instructions, comments and document-type declarations produce no
//! event; whitespace-only runs between tags produce no event either.
//! A document whose tag structure cannot be tokenized yields no event
//! stream at all.
//!
//! Nesting of elements is not checked here; the consumer of the event
//! stream checks it.  A self-closing element yields a start event
//! directly followed by an end event.

use vstd::prelude::*;
use crate::bytes::{
    all_ws_range,
    check_all_ws,
    copy_range,
    find2,
    find3,
    find_byte,
    find_name_end,
    find_non_ws,
    find_pair,
    find_triple,
    idx_of,
    lemma_find2_bounds,
    lemma_find3_bounds,
    lemma_idx_of_bounds,
    lemma_name_end_bounds,
    lemma_skip_ws_bounds,
    name_end,
    skip_ws,
};

verus! {

/// `<`
pub const B_LT: u8 = 0x3c;

/// `>`
pub const B_GT: u8 = 0x3e;

/// `/`
pub const B_SLASH: u8 = 0x2f;

/// `?`
pub const B_QUESTION: u8 = 0x3f;

/// `!`
pub const B_BANG: u8 = 0x21;

/// `-`
pub const B_DASH: u8 = 0x2d;

/// `=`
pub const B_EQ: u8 = 0x3d;

/// `"`
pub const B_DQUOTE: u8 = 0x22;

/// `'`
pub const B_SQUOTE: u8 = 0x27;

/// `:`
pub const B_COLON: u8 = 0x3a;

/// The mathematical form of one tokenizer event.
pub enum EventSpec {
    Start { name: Seq<u8>, attrs: Seq<(Seq<u8>, Seq<u8>)> },
    Text { text: Seq<u8> },
    End { name: Seq<u8> },
}

/// One tokenizer event.
#[derive(Debug, Clone, PartialEq)]
pub enum XmlEvent {
    Start { name: Vec<u8>, attrs: Vec<(Vec<u8>, Vec<u8>)> },
    Text { text: Vec<u8> },
    End { name: Vec<u8> },
}

/// The attribute list of a start event, as byte sequences.
pub open spec fn attrs_view(v: Seq<(Vec<u8>, Vec<u8>)>) -> Seq<(Seq<u8>, Seq<u8>)> {
    v.map_values(|p: (Vec<u8>, Vec<u8>)| (p.0@, p.1@))
}

impl View for XmlEvent {
    type V = EventSpec;

    open spec fn view(&self) -> EventSpec {
        match self {
            XmlEvent::Start { name, attrs } => EventSpec::Start {
                name: name@,
                attrs: attrs_view(attrs@),
            },
            XmlEvent::Text { text } => EventSpec::Text { text: text@ },
            XmlEvent::End { name } => EventSpec::End { name: name@ },
        }
    }
}

/// An event stream, as its mathematical form.
pub open spec fn evs_view(v: Seq<XmlEvent>) -> Seq<EventSpec> {
    v.map_values(|e: XmlEvent| e@)
}

/// Attribute lists inside a start tag, read from index `i`: pairs of name
/// and quoted value up to the closing `>` (or `/>`), with the index just
/// past the tag and whether the tag was self-closing.  `None` when the
/// tag cannot be tokenized.
pub open spec fn parse_attrs(s: Seq<u8>, i: int) -> Option<(Seq<(Seq<u8>, Seq<u8>)>, int, bool)>
    decreases s.len() - i,
    when 0 <= i <= s.len()
    via parse_attrs_decreases
{
    let w = skip_ws(s, i);
    if w >= s.len() {
        None
    } else if s[w] == B_GT {
        Some((Seq::empty(), w + 1, false))
    } else if s[w] == B_SLASH {
        if w + 1 < s.len() && s[w + 1] == B_GT {
            Some((Seq::empty(), w + 2, true))
        } else {
            None
        }
    } else {
        let ae = name_end(s, w);
        if ae == w {
            None
        } else {
            let w2 = skip_ws(s, ae);
            if w2 >= s.len() || s[w2] != B_EQ {
                None
            } else {
                let w3 = skip_ws(s, w2 + 1);
                if w3 >= s.len() || (s[w3] != B_DQUOTE && s[w3] != B_SQUOTE) {
                    None
                } else {
                    let ve = idx_of(s, w3 + 1, s[w3]);
                    if ve >= s.len() {
                        None
                    } else {
                        match parse_attrs(s, ve + 1) {
                            None => None,
                            Some((rest, end, sc)) => Some(
                                (seq![(s.subrange(w, ae), s.subrange(w3 + 1, ve))] + rest, end, sc),
                            ),
                        }
                    }
                }
            }
        }
    }
}

#[via_fn]
proof fn parse_attrs_decreases(s: Seq<u8>, i: int) {
    lemma_skip_ws_bounds(s, i);
    let w = skip_ws(s, i);
    if w < s.len() && s[w] != B_GT && s[w] != B_SLASH {
        lemma_name_end_bounds(s, w);
        let ae = name_end(s, w);
        if ae != w {
            lemma_skip_ws_bounds(s, ae);
            let w2 = skip_ws(s, ae);
            if w2 < s.len() && s[w2] == B_EQ {
                lemma_skip_ws_bounds(s, w2 + 1);
                let w3 = skip_ws(s, w2 + 1);
                if w3 < s.len() && (s[w3] == B_DQUOTE || s[w3] == B_SQUOTE) {
                    lemma_idx_of_bounds(s, w3 + 1, s[w3]);
                }
            }
        }
    }
}

/// One tokenizer step at index `pos`: the events the step yields (none
/// for skipped constructs and whitespace runs, two for a self-closing
/// tag) and the index the next step starts from.  `None` when the
/// document cannot be tokenized here.
pub open spec fn tok_step(s: Seq<u8>, pos: int) -> Option<(Seq<EventSpec>, int)> {
    if s[pos] != B_LT {
        let e = idx_of(s, pos, B_LT);
        if all_ws_range(s, pos, e) {
            Some((Seq::empty(), e))
        } else {
            Some((seq![EventSpec::Text { text: s.subrange(pos, e) }], e))
        }
    } else if pos + 1 >= s.len() {
        None
    } else if s[pos + 1] == B_QUESTION {
        let q = find2(s, pos + 2, B_QUESTION, B_GT);
        if q < s.len() {
            Some((Seq::empty(), q + 2))
        } else {
            None
        }
    } else if s[pos + 1] == B_BANG {
        if pos + 3 < s.len() && s[pos + 2] == B_DASH && s[pos + 3] == B_DASH {
            let q = find3(s, pos + 4, B_DASH, B_DASH, B_GT);
            if q < s.len() {
                Some((Seq::empty(), q + 3))
            } else {
                None
            }
        } else {
            let g = idx_of(s, pos + 2, B_GT);
            if g < s.len() {
                Some((Seq::empty(), g + 1))
            } else {
                None
            }
        }
    } else if s[pos + 1] == B_SLASH {
        let ns = pos + 2;
        let ne = name_end(s, ns);
        if ne == ns {
            None
        } else {
            let w = skip_ws(s, ne);
            if w < s.len() && s[w] == B_GT {
                Some((seq![EventSpec::End { name: s.subrange(ns, ne) }], w + 1))
            } else {
                None
            }
        }
    } else {
        let ns = pos + 1;
        let ne = name_end(s, ns);
        if ne == ns {
            None
        } else {
            match parse_attrs(s, ne) {
                None => None,
                Some((attrs, end, self_closing)) => {
                    let name = s.subrange(ns, ne);
                    if self_closing {
                        Some(
                            (
                                seq![
                                    EventSpec::Start { name, attrs },
                                    EventSpec::End { name },
                                ],
                                end,
                            ),
                        )
                    } else {
                        Some((seq![EventSpec::Start { name, attrs }], end))
                    }
                },
            }
        }
    }
}

/// The event stream of the document from index `pos` on; `None` when the
/// document cannot be tokenized.
pub open spec fn tok_from(s: Seq<u8>, pos: int) -> Option<Seq<EventSpec>>
    decreases s.len() - pos,
{
    if pos < 0 || pos >= s.len() {
        Some(Seq::empty())
    } else {
        match tok_step(s, pos) {
            None => None,
            Some((evs, p2)) => {
                if pos < p2 <= s.len() {
                    match tok_from(s, p2) {
                        None => None,
                        Some(rest) => Some(evs + rest),
                    }
                } else {
                    None
                }
            },
        }
    }
}

/// Where the document's content starts: after a UTF-8 byte-order mark
/// when one is present, else at the first byte.
pub open spec fn content_start(s: Seq<u8>) -> int {
    if s.len() >= 3 && s[0] == 0xef && s[1] == 0xbb && s[2] == 0xbf {
        3
    } else {
        0
    }
}

/// The event stream of the whole document.
pub open spec fn tokens_of(s: Seq<u8>) -> Option<Seq<EventSpec>> {
    tok_from(s, content_start(s))
}

/// Reads the attribute list of a start tag beginning at index `i`.
fn parse_attrs_exec(doc: &[u8], i: usize) -> (r: Option<(Vec<(Vec<u8>, Vec<u8>)>, usize, bool)>)
    requires
        i <= doc@.len(),
    ensures
        (match r {
            Some((attrs, end, sc)) => parse_attrs(doc@, i as int) == Some(
                (attrs_view(attrs@), end as int, sc),
            ) && i < end <= doc@.len(),
            None => parse_attrs(doc@, i as int) is None,
        }),
{
    let n: usize = doc.len();
    let mut acc: Vec<(Vec<u8>, Vec<u8>)> = Vec::new();
    let mut cur: usize = i;
    proof {
        assert(attrs_view(acc@) =~= Seq::<(Seq<u8>, Seq<u8>)>::empty());
        assert(n == doc@.len());
    }
    loop
        invariant
            n == doc@.len(),
            i <= cur <= doc@.len(),
            doc@.len() <= usize::MAX,
            (match parse_attrs(doc@, cur as int) {
                None => parse_attrs(doc@, i as int) is None,
                Some((rest, end, sc)) => parse_attrs(doc@, i as int) == Some(
                    (attrs_view(acc@) + rest, end, sc),
                ),
            }),
        decreases doc@.len() - cur,
    {
        let w = find_non_ws(doc, cur);
        if w >= n {
            return None;
        }
        let cw = doc[w];
        if cw == B_GT {
            proof {
                assert(attrs_view(acc@) + Seq::<(Seq<u8>, Seq<u8>)>::empty() =~= attrs_view(acc@));
            }
            return Some((acc, w + 1, false));
        }
        if cw == B_SLASH {
            if w + 1 < doc.len() && doc[w + 1] == B_GT {
                proof {
                    assert(attrs_view(acc@) + Seq::<(Seq<u8>, Seq<u8>)>::empty() =~= attrs_view(
                        acc@,
                    ));
                }
                return Some((acc, w + 2, true));
            }
            return None;
        }
        let ae = find_name_end(doc, w);
        if ae == w {
            return None;
        }
        let w2 = find_non_ws(doc, ae);
        if w2 >= doc.len() {
            return None;
        }
        if doc[w2] != B_EQ {
            return None;
        }
        let w3 = find_non_ws(doc, w2 + 1);
        if w3 >= doc.len() {
            return None;
        }
        let qc = doc[w3];
        if qc != B_DQUOTE && qc != B_SQUOTE {
            return None;
        }
        let ve = find_byte(doc, w3 + 1, qc);
        if ve >= doc.len() {
            return None;
        }
        let an = copy_range(doc, w, ae);
        let av = copy_range(doc, w3 + 1, ve);
        let ghost acc_old = acc@;
        let ghost pair = (doc@.subrange(w as int, ae as int), doc@.subrange(w3 + 1, ve as int));
        acc.push((an, av));
        proof {
            assert(attrs_view(acc@) =~= attrs_view(acc_old) + seq![pair]);
            match parse_attrs(doc@, ve + 1) {
                None => {},
                Some((rest, end, sc)) => {
                    assert(parse_attrs(doc@, cur as int) == Some((seq![pair] + rest, end, sc)));
                    assert(attrs_view(acc_old) + (seq![pair] + rest) =~= (attrs_view(acc_old)
                        + seq![pair]) + rest);
                },
            }
        }
        cur = ve + 1;
    }
}

/// Performs one tokenizer step at `pos`, pushing the step's events; the
/// result is the index the next step starts from, or `None` where the
/// document cannot be tokenized.
fn tok_step_exec(doc: &[u8], pos: usize, events: &mut Vec<XmlEvent>) -> (r: Option<usize>)
    requires
        pos < doc@.len(),
    ensures
        (match r {
            Some(p2) => (tok_step(doc@, pos as int) matches Some((evs, sp2)) && sp2 == p2 as int
                && evs_view(final(events)@) == evs_view(old(events)@) + evs && pos < p2
                <= doc@.len()),
            None => tok_step(doc@, pos as int) is None && final(events)@ == old(events)@,
        }),
{
    let c = doc[pos];
    if c != B_LT {
        let e = find_byte(doc, pos, B_LT);
        if check_all_ws(doc, pos, e) {
            proof {
                assert(evs_view(events@) + Seq::<EventSpec>::empty() =~= evs_view(events@));
            }
            Some(e)
        } else {
            let text = copy_range(doc, pos, e);
            let ghost ev_old = events@;
            events.push(XmlEvent::Text { text });
            proof {
                assert(evs_view(events@) =~= evs_view(ev_old) + seq![
                    EventSpec::Text { text: doc@.subrange(pos as int, e as int) },
                ]);
            }
            Some(e)
        }
    } else if pos + 1 >= doc.len() {
        None
    } else if doc[pos + 1] == B_QUESTION {
        let q = find_pair(doc, pos + 2, B_QUESTION, B_GT);
        proof {
            lemma_find2_bounds(doc@, pos + 2, B_QUESTION, B_GT);
        }
        if q < doc.len() {
            proof {
                assert(evs_view(events@) + Seq::<EventSpec>::empty() =~= evs_view(events@));
            }
            Some(q + 2)
        } else {
            None
        }
    } else if doc[pos + 1] == B_BANG {
        if pos + 2 < doc.len() && doc[pos + 2] == B_DASH && pos + 3 < doc.len() && doc[pos + 3]
            == B_DASH {
            let q = find_triple(doc, pos + 4, B_DASH, B_DASH, B_GT);
            proof {
                lemma_find3_bounds(doc@, pos + 4, B_DASH, B_DASH, B_GT);
            }
            if q < doc.len() {
                proof {
                    assert(evs_view(events@) + Seq::<EventSpec>::empty() =~= evs_view(events@));
                }
                Some(q + 3)
            } else {
                None
            }
        } else {
            let g = find_byte(doc, pos + 2, B_GT);
            if g < doc.len() {
                proof {
                    assert(evs_view(events@) + Seq::<EventSpec>::empty() =~= evs_view(events@));
                }
                Some(g + 1)
            } else {
                None
            }
        }
    } else if doc[pos + 1] == B_SLASH {
        let ns = pos + 2;
        let ne = find_name_end(doc, ns);
        if ne == ns {
            None
        } else {
            let w = find_non_ws(doc, ne);
            if w < doc.len() && doc[w] == B_GT {
                let name = copy_range(doc, ns, ne);
                let ghost ev_old = events@;
                events.push(XmlEvent::End { name });
                proof {
                    assert(evs_view(events@) =~= evs_view(ev_old) + seq![
                        EventSpec::End { name: doc@.subrange(ns as int, ne as int) },
                    ]);
                }
                Some(w + 1)
            } else {
                None
            }
        }
    } else {
        let ns = pos + 1;
        let ne = find_name_end(doc, ns);
        if ne == ns {
            None
        } else {
            match parse_attrs_exec(doc, ne) {
                None => None,
                Some((attrs, end, self_closing)) => {
                    let name = copy_range(doc, ns, ne);
                    let ghost sname = doc@.subrange(ns as int, ne as int);
                    let ghost sattrs = attrs_view(attrs@);
                    let ghost ev_old = events@;
                    if self_closing {
                        let name2 = copy_range(doc, ns, ne);
                        events.push(XmlEvent::Start { name, attrs });
                        events.push(XmlEvent::End { name: name2 });
                        proof {
                            assert(evs_view(events@) =~= evs_view(ev_old) + seq![
                                EventSpec::Start { name: sname, attrs: sattrs },
                                EventSpec::End { name: sname },
                            ]);
                        }
                        Some(end)
                    } else {
                        events.push(XmlEvent::Start { name, attrs });
                        proof {
                            assert(evs_view(events@) =~= evs_view(ev_old) + seq![
                                EventSpec::Start { name: sname, attrs: sattrs },
                            ]);
                        }
                        Some(end)
                    }
                },
            }
        }
    }
}

/// Tokenizes the whole document: `Some` exactly when the document can be
/// tokenized, carrying its event stream.
pub fn tokenize(doc: &[u8]) -> (r: Option<Vec<XmlEvent>>)
    ensures
        (match r {
            Some(evs) => tokens_of(doc@) == Some(evs_view(evs@)),
            None => tokens_of(doc@) is None,
        }),
{
    let n: usize = doc.len();
    let mut events: Vec<XmlEvent> = Vec::new();
    let mut pos: usize = 0;
    if n >= 3 && doc[0] == 0xef && doc[1] == 0xbb && doc[2] == 0xbf {
        pos = 3;
    }
    proof {
        assert(evs_view(events@) =~= Seq::<EventSpec>::empty());
        assert(n == doc@.len());
        assert(pos == content_start(doc@));
    }
    while pos < n
        invariant
            n == doc@.len(),
            pos <= doc@.len(),
            doc@.len() <= usize::MAX,
            (match tok_from(doc@, pos as int) {
                Some(rest) => tokens_of(doc@) == Some(evs_view(events@) + rest),
                None => tokens_of(doc@) is None,
            }),
        decreases doc@.len() - pos,
    {
        let ghost ev_before = events@;
        match tok_step_exec(doc, pos, &mut events) {
            None => {
                return None;
            },
            Some(p2) => {
                proof {
                    let (evs, sp2) = tok_step(doc@, pos as int)->Some_0;
                    match tok_from(doc@, p2 as int) {
                        None => {},
                        Some(rest2) => {
                            assert(tok_from(doc@, pos as int) == Some(evs + rest2));
                            assert(evs_view(ev_before) + (evs + rest2) =~= (evs_view(ev_before)
                                + evs) + rest2);
                        },
                    }
                }
                pos = p2;
            },
        }
    }
    proof {
        assert(evs_view(events@) + Seq::<EventSpec>::empty() =~= evs_view(events@));
    }
    Some(events)
}

} // verus!
