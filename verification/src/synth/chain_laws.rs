//! The order of a chain, and how it runs.

use vstd::prelude::*;

use crate::dns::{RData, Record, RecordType};
use crate::net;
use crate::net::Ipv6Addr;
use crate::synth;
use crate::synth::{cdn, cidr, labels, nat64};
use crate::synth::{Addrs, ChainError, ChainModel, CtxModel, Step, StepModel};
use crate::text;
use crate::text_laws;

verus! {

// ---------------------------------------------------------------------------
// Ids and their order
// ---------------------------------------------------------------------------

/// The ids that name a synthesizer.
pub proof fn the_ids_of_synthesizers(id: Seq<char>)
    ensures
        synth::is_synth(id) <==> {
            ||| id == "nat64"@ || id == "fastly"@
            ||| id == "akamai"@ || id == "cloudfront"@
            ||| id == "cloudflare"@ || id == "shopify"@
            ||| id == "webflow"@ || id == "s3"@
            ||| id == "oss"@ || id == "alicdn"@
            ||| id == "oracleobjectstorage"@ || id == "msedge"@
            ||| id == "bunnycdn"@ || id == "blazingcdn"@
            ||| id == "gcorecdn"@ || id == "cachefly"@
            ||| id == "cdn77"@ || id == "awsglb"@
            ||| id == "weebly"@ || id == "sucuri"@
            ||| id == "netlify"@ || id == "bearblog"@
            ||| id == "azurewebsites"@ || id == "wpvip"@
            ||| id == "edgecast"@ || id == "limelight"@
        },
{
}

/// `nat64` plans by the prefix, and every other id by its provider.
pub proof fn an_id_has_its_plan(id: Seq<char>, prefix: Ipv6Addr, ctx: CtxModel)
    ensures
        id == "nat64"@ ==> synth::synth_plan(id, prefix, ctx) == nat64::nat64_plan(prefix, ctx),
        id != "nat64"@ ==> synth::synth_plan(id, prefix, ctx) == cdn::plan_of(id, ctx),
{
}

/// An id of a list, with none of it in front of place `k`.
pub open spec fn first_stands_at(ids: Seq<Seq<char>>, id: Seq<char>, k: int) -> bool {
    0 <= k < ids.len() && ids[k] == id && forall|j: int| 0 <= j < k ==> #[trigger] ids[j] != id
}

/// Whether an id of a list stands only behind place `k`.
pub open spec fn stands_behind(ids: Seq<Seq<char>>, id: Seq<char>, k: int) -> bool {
    ids.contains(id) && forall|j: int| 0 <= j < k ==> #[trigger] ids[j] != id
}

/// The order holds where there is no `cloudflare`, and otherwise where neither
/// `shopify` nor `webflow` stands only behind the first of it.
pub proof fn specific_providers_stand_in_front(ids: Seq<Seq<char>>, k: int)
    ensures
        !ids.contains("cloudflare"@) ==> synth::order_holds(ids),
        first_stands_at(ids, "cloudflare"@, k) ==> (synth::order_holds(ids) <==> !stands_behind(
            ids,
            "shopify"@,
            k,
        ) && !stands_behind(ids, "webflow"@, k)),
{
    reveal_strlit("cloudflare");
    reveal_strlit("shopify");
    reveal_strlit("webflow");
    assert("cloudflare"@.len() != "shopify"@.len());
    assert("cloudflare"@.len() != "webflow"@.len());
    one_stands_in_front(ids, "shopify"@, k);
    one_stands_in_front(ids, "webflow"@, k);
}

proof fn one_stands_in_front(ids: Seq<Seq<char>>, a: Seq<char>, k: int)
    requires
        a != "cloudflare"@,
    ensures
        !ids.contains("cloudflare"@) ==> synth::precedes(ids, a, "cloudflare"@),
        first_stands_at(ids, "cloudflare"@, k) ==> (synth::precedes(ids, a, "cloudflare"@)
            <==> !stands_behind(ids, a, k)),
{
    labels::index_of_is_first(ids, a);
    labels::index_of_is_first(ids, "cloudflare"@);
    let i = labels::index_of(ids, a);
    let j = labels::index_of(ids, "cloudflare"@);
    if j >= 0 {
        assert(ids.contains(ids[j]));
    }
    if first_stands_at(ids, "cloudflare"@, k) {
        if j < 0 {
            assert(ids[k] != "cloudflare"@);
        }
        if k < j {
            assert(ids[k] != "cloudflare"@);
        }
        assert(j == k);
        if i >= 0 {
            assert(ids.contains(ids[i]));
            if i < k {
                assert(ids[i] == a);
            } else {
                assert forall|l: int| 0 <= l < k implies #[trigger] ids[l] != a by {}
            }
        } else if ids.contains(a) {
            let l = choose|l: int| 0 <= l < ids.len() && ids[l] == a;
            assert(ids[l] != a);
        }
    }
}

/// The fault of an order names the one that stands behind, `shopify` first.
pub proof fn the_fault_of_an_order(ids: Seq<Seq<char>>, e: ChainError, k: int)
    requires
        synth::breaks(ids, e),
        first_stands_at(ids, "cloudflare"@, k),
    ensures
        e is Order && e->Order_1@ == "cloudflare"@,
        stands_behind(ids, "shopify"@, k) ==> e->Order_0@ == "shopify"@,
        !stands_behind(ids, "shopify"@, k) ==> e->Order_0@ == "webflow"@ && stands_behind(
            ids,
            "webflow"@,
            k,
        ),
{
    reveal_strlit("cloudflare");
    reveal_strlit("shopify");
    reveal_strlit("webflow");
    assert("cloudflare"@.len() != "shopify"@.len());
    assert("cloudflare"@.len() != "webflow"@.len());
    one_stands_in_front(ids, "shopify"@, k);
    one_stands_in_front(ids, "webflow"@, k);
}

/// A list of texts has a comma and a space in front of each but the first.
pub proof fn a_list_has_commas(p: Seq<&str>, s: &str)
    ensures
        synth::comma_list(Seq::empty()).len() == 0,
        synth::comma_list(seq![s]) == s@,
        p.len() > 0 ==> synth::comma_list(p.push(s)) == synth::comma_list(p) + ", "@ + s@,
{
    assert(p.push(s).drop_last() =~= p);
}

// ---------------------------------------------------------------------------
// Running
// ---------------------------------------------------------------------------

/// A synthesizer wins just where its plan yields an address. Behind its own addresses
/// stand those of NAT64, where they are asked for and it is not NAT64 itself.
pub proof fn a_synthesizer_wins_with_an_address(
    c: ChainModel,
    i: int,
    ctx: CtxModel,
    found: Addrs,
)
    requires
        0 <= i < c.ids.len(),
    ensures
        ({
            let p = synth::synth_plan(c.ids[i], c.prefix, ctx);
            let w = synth::win(c, i, ctx, found);
            let own = synth::plan_yields(p->0, ctx, found, c.cap);
            let n = nat64::nat64_plan(c.prefix, ctx);
            &&& p is None ==> w is None
            &&& p is Some && own.len() == 0 ==> w is None
            &&& p is Some && own.len() > 0 ==> w is Some && (w->0).0 == c.ids[i]
            &&& p is Some && own.len() > 0 && (c.ids[i] == "nat64"@ || !c.fallback || n is None)
                ==> (w->0).1 == own
            &&& p is Some && own.len() > 0 && c.ids[i] != "nat64"@ && c.fallback && n is Some
                ==> (w->0).1 == own + synth::plan_yields(n->0, ctx, Seq::empty(), c.cap)
        }),
{
    let own = synth::plan_yields(synth::synth_plan(c.ids[i], c.prefix, ctx)->0, ctx, found, c.cap);
    assert(own + Seq::<(Ipv6Addr, u32)>::empty() =~= own);
}

/// A run goes from one synthesizer to the next, passing over those without a plan, and
/// ends behind the last.
pub proof fn a_run_goes_on_to_the_next(c: ChainModel, i: int, ctx: CtxModel, found: Addrs)
    requires
        0 <= i < c.ids.len(),
    ensures
        ({
            let p = synth::synth_plan(c.ids[i], c.prefix, ctx);
            let w = synth::win(c, i, ctx, found);
            &&& p is Some ==> synth::step_from(c, i, ctx) == StepModel::Lookup(i, p->0.resolve)
            &&& p is None ==> synth::step_from(c, i, ctx) == synth::step_from(c, i + 1, ctx)
            &&& synth::step_from(c, c.ids.len() as int, ctx) == StepModel::Done(None)
            &&& w is Some ==> synth::step_after(c, i, ctx, found) == StepModel::Done(w)
            &&& w is None ==> synth::step_after(c, i, ctx, found) == synth::step_from(
                c,
                i + 1,
                ctx,
            )
        }),
{
}

/// The records of an answer are AAAA records of the queried name, one for each address
/// with its TTL.
pub proof fn an_answer_is_aaaa_records(v: Seq<Record>, name: Seq<char>, addrs: Addrs, i: int)
    requires
        synth::are_records(v, name, addrs),
        0 <= i < addrs.len(),
    ensures
        v.len() == addrs.len(),
        v[i].name@ == name,
        v[i].rtype is Aaaa,
        v[i].ttl == addrs[i].1,
        v[i].data is Aaaa && v[i].data->Aaaa_0 == addrs[i].0,
{
    assert(v[i].rtype == RecordType::Aaaa);
    assert(v[i].data == RData::Aaaa(addrs[i].0));
}

/// A step asks for the names that it is to, or ends with the answer that it has.
pub proof fn a_step_is_what_it_says(s: Step, m: StepModel, name: Seq<char>)
    requires
        synth::is_step(s, m, name),
    ensures
        m is Lookup ==> s is Lookup && s->index == m->Lookup_0 && crate::dns::name_texts(
            s->names@,
        ) == m->Lookup_1,
        m is Done && m->Done_0 is None ==> s is Done && s->Done_0 is None,
        m is Done && m->Done_0 is Some ==> s is Done && s->Done_0 is Some && s->Done_0->0.id@
            == (m->Done_0->0).0 && synth::are_records(
            s->Done_0->0.records@,
            name,
            (m->Done_0->0).1,
        ),
{
}

/// The limits of synthesis: a TTL of five minutes where there is none to go by, and an
/// advertised payload of 1232 bytes.
pub proof fn the_limits_of_synthesis()
    ensures
        synth::DEFAULT_SYNTH_TTL == 300,
        synth::EDNS_PAYLOAD == 1232,
{
}

// ---------------------------------------------------------------------------
// Networks in text
// ---------------------------------------------------------------------------

/// A network is written as an address, a slash and a prefix length in decimal; an
/// address alone is a network of one.
pub proof fn a_network_is_written_with_its_length(addr: Seq<char>, n: nat)
    requires
        forall|i: int| 0 <= i < addr.len() ==> #[trigger] addr[i] != '/',
        net::ipv4_text(addr) is Some,
        n <= 0xffff_ffff,
    ensures
        ({
            let s = addr.push('/') + text::decimal(n);
            &&& cidr::is_cidr(s) <==> n <= 32
            &&& cidr::cidr_base(s) == net::ipv4_text(addr)->0
            &&& cidr::cidr_len(s) == n
        }),
        cidr::is_cidr(addr),
        cidr::cidr_base(addr) == net::ipv4_text(addr)->0,
        cidr::cidr_len(addr) == 32,
{
    let d = text::decimal(n);
    let s = addr.push('/') + d;
    let k = addr.len() as int;
    assert(s[k] == '/');
    assert(text::first_at(s, '/', k));
    let i = choose|i: int| text::first_at(s, '/', i);
    if i < k {
        assert(s[i] == addr[i]);
    }
    assert(i == k);
    assert(s.take(k) =~= addr);
    assert(s.skip(k + 1) =~= d);
    text::decimal_reads_back(n);
    text_laws::a_limit_bounds_what_is_read(d, 10, u32::MAX as nat, n);
    reveal_strlit("32");
    text_laws::decimal_by_places(3, 2);
    text_laws::decimal_by_places(0, 3);
    text::decimal_reads_back(32);
    assert(text::decimal(32) =~= "32"@) by {
        assert(text::decimal(3) =~= seq!['3']);
        assert(text::decimal(32) =~= text::decimal(3) + text::decimal(2));
        assert(text::decimal(2) =~= seq!['2']);
    }
    text_laws::a_limit_bounds_what_is_read("32"@, 10, u32::MAX as nat, 32);
}

} // verus!
