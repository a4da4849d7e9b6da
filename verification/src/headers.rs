//! Headers on their way through the proxy.
use vstd::prelude::*;

use crate::mtls::copy_bytes;
use crate::text::{ascii_lower, lower, same};

verus! {

/// One header. Names are ASCII.
pub struct Header {
    pub name: String,
    pub value: Vec<u8>,
}

/// What a [`Header`] says.
#[verifier::ext_equal]
pub ghost struct HeaderView {
    pub name: Seq<char>,
    pub value: Seq<u8>,
}

impl View for Header {
    type V = HeaderView;

    open spec fn view(&self) -> HeaderView {
        HeaderView { name: self.name@, value: self.value@ }
    }
}

/// What headers say.
pub open spec fn header_views(v: Seq<Header>) -> Seq<HeaderView> {
    Seq::new(v.len(), |i: int| v[i]@)
}

/// A copy of a header.
pub fn copy_header(h: &Header) -> (r: Header)
    ensures
        r@ == h@,
{
    Header { name: h.name.clone(), value: copy_bytes(h.value.as_slice()) }
}

/// Whether a header of an agent is kept back: the ones that carry credentials or
/// the host, and the one that the upstream's own credential goes into.
pub open spec fn stripped(name: Seq<char>, extra: Option<Seq<char>>) -> bool {
    lower(name) == "host"@ || lower(name) == "authorization"@ || lower(name) == "x-api-key"@
        || extra == Some(lower(name))
}

/// The headers of an agent that are sent on, in order.
pub open spec fn forwarded(v: Seq<HeaderView>, extra: Option<Seq<char>>) -> Seq<HeaderView>
    decreases v.len(),
{
    if v.len() == 0 {
        Seq::empty()
    } else {
        let rest = forwarded(v.drop_last(), extra);
        if stripped(v.last().name, extra) {
            rest
        } else {
            rest.push(v.last())
        }
    }
}

/// The headers of an agent that are sent on, in order.
pub fn forward_request_headers(headers: &Vec<Header>, extra: &Option<String>) -> (r: Vec<Header>)
    ensures
        header_views(r@) == forwarded(header_views(headers@), crate::text::opt_text(*extra)),
{
    let ghost all = header_views(headers@);
    let ghost skip = crate::text::opt_text(*extra);
    let mut out: Vec<Header> = Vec::new();
    let mut i: usize = 0;
    assert(header_views(out@) =~= forwarded(all.take(0), skip));
    while i < headers.len()
        invariant
            i <= headers@.len(),
            all == header_views(headers@),
            skip == crate::text::opt_text(*extra),
            header_views(out@) == forwarded(all.take(i as int), skip),
        decreases headers.len() - i,
    {
        assert(all.take(i + 1).drop_last() =~= all.take(i as int));
        assert(all.take(i + 1).last() == headers@[i as int]@);
        let name = ascii_lower(headers[i].name.as_str());
        let own = match extra {
            Some(e) => same(e.as_str(), name.as_str()),
            None => false,
        };
        let strip = same(name.as_str(), "host") || same(name.as_str(), "authorization") || same(
            name.as_str(),
            "x-api-key",
        ) || own;
        if !strip {
            let ghost before = out@;
            out.push(copy_header(&headers[i]));
            assert(header_views(out@) =~= header_views(before).push(headers@[i as int]@));
        }
        i = i + 1;
    }
    assert(all.take(all.len() as int) =~= all);
    out
}

/// Nothing that an agent sends under a name for credentials or for the host, or
/// under the name that the upstream's credential goes into, is sent on; and what
/// is sent on is what the agent sent.
pub proof fn law_agent_credentials_are_not_forwarded(
    v: Seq<HeaderView>,
    extra: Option<Seq<char>>,
    h: HeaderView,
)
    requires
        forwarded(v, extra).contains(h),
    ensures
        v.contains(h),
        lower(h.name) != "host"@,
        lower(h.name) != "authorization"@,
        lower(h.name) != "x-api-key"@,
        extra != Some(lower(h.name)),
    decreases v.len(),
{
    let out = forwarded(v, extra);
    let k = out.index_of(h);
    let rest = forwarded(v.drop_last(), extra);
    if stripped(v.last().name, extra) {
        law_agent_credentials_are_not_forwarded(v.drop_last(), extra, h);
        let j = v.drop_last().index_of(h);
        assert(v[j] == h);
    } else if k < rest.len() {
        assert(rest[k] == h);
        law_agent_credentials_are_not_forwarded(v.drop_last(), extra, h);
        let j = v.drop_last().index_of(h);
        assert(v[j] == h);
    } else {
        assert(v[v.len() - 1] == h);
    }
}

/// Whatever else an agent sends is sent on.
pub proof fn law_other_headers_are_forwarded(
    v: Seq<HeaderView>,
    extra: Option<Seq<char>>,
    h: HeaderView,
)
    requires
        v.contains(h),
        !stripped(h.name, extra),
    ensures
        forwarded(v, extra).contains(h),
    decreases v.len(),
{
    let rest = forwarded(v.drop_last(), extra);
    if v.last() == h {
        assert(forwarded(v, extra)[rest.len() as int] == h);
    } else {
        let k = v.index_of(h);
        assert(v.drop_last()[k] == h);
        law_other_headers_are_forwarded(v.drop_last(), extra, h);
        let j = rest.index_of(h);
        assert(forwarded(v, extra)[j] == h);
    }
}

/// Whether a header of an upstream belongs to its connection and not to its
/// reply.
pub open spec fn hop_by_hop(name: Seq<char>) -> bool {
    lower(name) == "transfer-encoding"@ || lower(name) == "content-length"@ || lower(name)
        == "connection"@ || lower(name) == "keep-alive"@ || lower(name) == "proxy-connection"@
        || lower(name) == "upgrade"@ || lower(name) == "te"@ || lower(name) == "trailer"@
}

/// Whether a header of an upstream belongs to its connection and not to its
/// reply.
pub fn is_hop_by_hop(name: &str) -> (r: bool)
    ensures
        r == hop_by_hop(name@),
{
    let l = ascii_lower(name);
    let s = l.as_str();
    same(s, "transfer-encoding") || same(s, "content-length") || same(s, "connection") || same(
        s,
        "keep-alive",
    ) || same(s, "proxy-connection") || same(s, "upgrade") || same(s, "te") || same(s, "trailer")
}

/// Whether a byte may stand in the value of a header: everything but the control
/// characters, of which the tab may.
pub open spec fn value_byte(b: u8) -> bool {
    (b >= 32 && b != 127) || b == 9
}

/// Whether bytes can be the value of a header.
pub open spec fn header_value(v: Seq<u8>) -> bool {
    forall|i: int| 0 <= i < v.len() ==> value_byte(#[trigger] v[i])
}

/// Whether bytes can be the value of a header.
pub fn is_header_value(v: &Vec<u8>) -> (r: bool)
    ensures
        r == header_value(v@),
{
    let mut i: usize = 0;
    while i < v.len()
        invariant
            i <= v@.len(),
            forall|k: int| 0 <= k < i ==> value_byte(#[trigger] v@[k]),
        decreases v.len() - i,
    {
        let b: u8 = v[i];
        if !((b >= 32 && b != 127) || b == 9) {
            assert(!value_byte(v@[i as int]));
            return false;
        }
        i = i + 1;
    }
    true
}

/// The headers by their names.
pub open spec fn response_map(v: Seq<HeaderView>) -> Map<Seq<char>, Seq<u8>>
    decreases v.len(),
{
    if v.len() == 0 {
        Map::empty()
    } else {
        response_map(v.drop_last()).insert(v.last().name, v.last().value)
    }
}

/// Whether a header of an upstream is handed to the agent.
pub open spec fn passes(h: HeaderView) -> bool {
    !hop_by_hop(h.name) && header_value(h.value)
}

/// The headers of an upstream that are handed to the agent, by their names: of
/// several with one name the last.
pub open spec fn returned(v: Seq<HeaderView>) -> Map<Seq<char>, Seq<u8>> {
    response_map(v.filter(|h: HeaderView| passes(h)))
}

/// Where the header with a name stands; the number of headers where there is
/// none.
fn position(v: &Vec<Header>, name: &str) -> (r: usize)
    ensures
        r <= v@.len(),
        r < v@.len() ==> v@[r as int].name@ == name@,
        forall|k: int| 0 <= k < r ==> (#[trigger] v@[k]).name@ != name@,
{
    let mut i: usize = 0;
    while i < v.len()
        invariant
            i <= v@.len(),
            forall|k: int| 0 <= k < i ==> (#[trigger] v@[k]).name@ != name@,
        decreases v.len() - i,
    {
        if same(v[i].name.as_str(), name) {
            return i;
        }
        i = i + 1;
    }
    i
}

/// Whether no name occurs twice.
pub open spec fn distinct_names(v: Seq<HeaderView>) -> bool {
    forall|i: int, j: int|
        0 <= i < j < v.len() ==> (#[trigger] v[i]).name != (#[trigger] v[j]).name
}

proof fn lemma_set_value(v: Seq<HeaderView>, i: int, value: Seq<u8>)
    requires
        distinct_names(v),
        0 <= i < v.len(),
    ensures
        response_map(v.update(i, HeaderView { name: v[i].name, value })) == response_map(v).insert(
            v[i].name,
            value,
        ),
        distinct_names(v.update(i, HeaderView { name: v[i].name, value })),
    decreases v.len(),
{
    let w = v.update(i, HeaderView { name: v[i].name, value });
    if i == v.len() - 1 {
        assert(w.drop_last() =~= v.drop_last());
        assert(response_map(w) =~= response_map(v).insert(v[i].name, value));
    } else {
        lemma_set_value(v.drop_last(), i, value);
        assert(w.drop_last() =~= v.drop_last().update(i, HeaderView { name: v[i].name, value }));
        assert(v.last().name != v[i].name);
        assert(response_map(w) =~= response_map(v).insert(v[i].name, value));
    }
}

/// The headers of an upstream that are handed to the agent, each name once.
pub fn forward_response_headers(upstream: &Vec<Header>) -> (r: Vec<Header>)
    ensures
        response_map(header_views(r@)) == returned(header_views(upstream@)),
        distinct_names(header_views(r@)),
{
    let ghost all = header_views(upstream@);
    let ghost p = |h: HeaderView| passes(h);
    let mut out: Vec<Header> = Vec::new();
    let mut i: usize = 0;
    reveal(Seq::filter);
    assert(all.take(0).filter(p) =~= Seq::empty());
    while i < upstream.len()
        invariant
            i <= upstream@.len(),
            all == header_views(upstream@),
            p == (|h: HeaderView| passes(h)),
            response_map(header_views(out@)) == response_map(all.take(i as int).filter(p)),
            distinct_names(header_views(out@)),
        decreases upstream.len() - i,
    {
        reveal(Seq::filter);
        let ghost next = all.take(i + 1);
        assert(next.drop_last() =~= all.take(i as int));
        assert(next.last() == upstream@[i as int]@);
        let h = &upstream[i];
        if !is_hop_by_hop(h.name.as_str()) && is_header_value(&h.value) {
            let at = position(&out, h.name.as_str());
            let ghost before = header_views(out@);
            if at < out.len() {
                out.set(at, copy_header(h));
                proof {
                    assert(before[at as int].name == h@.name);
                    lemma_set_value(before, at as int, h@.value);
                    assert(header_views(out@) =~= before.update(
                        at as int,
                        HeaderView { name: before[at as int].name, value: h@.value },
                    ));
                }
            } else {
                out.push(copy_header(h));
                proof {
                    assert(header_views(out@) =~= before.push(h@));
                    assert(header_views(out@).drop_last() =~= before);
                    assert forall|a: int, b: int|
                        0 <= a < b < header_views(out@).len() implies (#[trigger] header_views(
                        out@,
                    )[a]).name != (#[trigger] header_views(out@)[b]).name by {
                        if b < before.len() {
                            assert(before[a].name != before[b].name);
                        } else {
                            assert(header_views(out@)[a] == before[a]);
                        }
                    }
                }
            }
            assert(next.filter(p).drop_last() =~= all.take(i as int).filter(p));
        }
        i = i + 1;
    }
    assert(all.take(all.len() as int) =~= all);
    out
}

proof fn lemma_returned_name(v: Seq<HeaderView>, name: Seq<char>)
    requires
        response_map(v).contains_key(name),
    ensures
        exists|i: int| 0 <= i < v.len() && (#[trigger] v[i]).name == name,
    decreases v.len(),
{
    if v.last().name == name {
        assert(v[v.len() - 1].name == name);
    } else {
        lemma_returned_name(v.drop_last(), name);
        let i = choose|i: int|
            0 <= i < v.drop_last().len() && (#[trigger] v.drop_last()[i]).name == name;
        assert(v[i].name == name);
    }
}

/// No header of the upstream's connection reaches the agent.
pub proof fn law_hop_by_hop_headers_end_here(v: Seq<HeaderView>, name: Seq<char>)
    requires
        hop_by_hop(name),
    ensures
        !returned(v).contains_key(name),
{
    let kept = v.filter(|h: HeaderView| passes(h));
    if returned(v).contains_key(name) {
        lemma_returned_name(kept, name);
        let i = choose|i: int| 0 <= i < kept.len() && (#[trigger] kept[i]).name == name;
        v.lemma_filter_pred(|h: HeaderView| passes(h), i);
    }
}

/// Every header of an agent is sent on as it is but for the host, the agent's own
/// credentials, and the header that the upstream's credential goes into.
pub proof fn law_only_credentials_and_host_are_kept_back(
    v: Seq<HeaderView>,
    extra: Option<Seq<char>>,
    h: HeaderView,
)
    requires
        v.contains(h),
        lower(h.name) != "host"@,
        lower(h.name) != "authorization"@,
        lower(h.name) != "x-api-key"@,
        extra != Some(lower(h.name)),
    ensures
        forwarded(v, extra).contains(h),
{
    law_other_headers_are_forwarded(v, extra, h);
}

/// Headers are sent on in the order in which they came, none twice: what is sent on of
/// two lists one after the other is what is sent on of each.
pub proof fn law_headers_are_forwarded_in_order(
    a: Seq<HeaderView>,
    b: Seq<HeaderView>,
    extra: Option<Seq<char>>,
)
    ensures
        forwarded(a + b, extra) == forwarded(a, extra) + forwarded(b, extra),
        forwarded(a, extra).len() <= a.len(),
    decreases b.len(), a.len(),
{
    if b.len() > 0 {
        law_headers_are_forwarded_in_order(a, b.drop_last(), extra);
        assert((a + b).drop_last() =~= a + b.drop_last());
        assert(forwarded(a + b, extra) =~= forwarded(a, extra) + forwarded(b, extra));
    } else {
        assert(a + b =~= a);
        assert(forwarded(a, extra) + forwarded(b, extra) =~= forwarded(a, extra));
        if a.len() > 0 {
            law_headers_are_forwarded_in_order(a.drop_last(), b, extra);
        }
    }
}

/// The headers of an upstream's connection, eight of them, do not reach the agent, in
/// whatever case they are written; no other name is held back.
pub proof fn law_connection_headers(name: Seq<char>)
    ensures
        ({
            let l = lower(name);
            let of_connection = l == "connection"@ || l == "keep-alive"@ || l
                == "proxy-connection"@ || l == "te"@ || l == "trailer"@ || l
                == "transfer-encoding"@ || l == "upgrade"@ || l == "content-length"@;
            forall|v: Seq<u8>|
                #![trigger passes(HeaderView { name, value: v })]
                passes(HeaderView { name, value: v }) <==> !of_connection && forall|i: int|
                    0 <= i < v.len() ==> (#[trigger] v[i]) == 9 || (32 <= v[i] && v[i] != 127)
        }),
{
}

/// Every other header of an upstream reaches the agent with its value, where that can be
/// the value of a header; of several with one name the last.
pub proof fn law_reply_headers_reach_the_agent(v: Seq<HeaderView>, h: HeaderView)
    requires
        passes(h),
    ensures
        returned(v.push(h)).contains_key(h.name),
        returned(v.push(h))[h.name] == h.value,
        forall|n: Seq<char>|
            n != h.name ==> (#[trigger] returned(v.push(h)).contains_key(n) <==> returned(
                v,
            ).contains_key(n)) && (returned(v).contains_key(n) ==> returned(v.push(h))[n]
                == returned(v)[n]),
        returned(Seq::<HeaderView>::empty()) == Map::<Seq<char>, Seq<u8>>::empty(),
{
    reveal(Seq::filter);
    let p = |x: HeaderView| passes(x);
    let w = v.push(h);
    assert(w.drop_last() =~= v);
    assert(w.filter(p) == v.filter(p).push(h));
    let k = w.filter(p);
    assert(k.drop_last() =~= v.filter(p));
    assert(Seq::<HeaderView>::empty().filter(p) =~= Seq::<HeaderView>::empty());
}

/// A header of an upstream that is not handed on changes nothing.
pub proof fn law_held_back_reply_header_changes_nothing(v: Seq<HeaderView>, h: HeaderView)
    requires
        !passes(h),
    ensures
        returned(v.push(h)) == returned(v),
{
    reveal(Seq::filter);
    assert(v.push(h).drop_last() =~= v);
}

} // verus!
