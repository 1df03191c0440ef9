use vstd::prelude::*;

use crate::text::{lower_of, replace_all, spec_replace_all, to_lowercase, to_uppercase, upper_of};

verus! {

/// The parts joined by `sep`.
pub open spec fn spec_join(parts: Seq<Seq<char>>, sep: Seq<char>) -> Seq<char>
    decreases parts.len(),
{
    if parts.len() == 0 {
        Seq::empty()
    } else if parts.len() == 1 {
        parts[0]
    } else {
        parts[0] + sep + spec_join(parts.skip(1), sep)
    }
}

proof fn lemma_join_push(parts: Seq<Seq<char>>, sep: Seq<char>, p: Seq<char>)
    ensures
        spec_join(parts.push(p), sep) == if parts.len() == 0 {
            p
        } else {
            spec_join(parts, sep) + sep + p
        },
    decreases parts.len(),
{
    if parts.len() == 0 {
        assert(parts.push(p)[0] == p);
        assert(spec_join(parts.push(p), sep) =~= p);
    } else if parts.len() == 1 {
        assert(parts.push(p).skip(1) =~= seq![p]);
        assert(spec_join(seq![p], sep) == p);
        assert(parts.push(p)[0] == parts[0]);
        assert(spec_join(parts.push(p), sep) =~= spec_join(parts, sep) + sep + p);
    } else {
        lemma_join_push(parts.skip(1), sep, p);
        assert(parts.push(p).skip(1) =~= parts.skip(1).push(p));
        assert(spec_join(parts.push(p), sep) =~= spec_join(parts, sep) + sep + p);
    }
}

/// Every item instantiated for every symbol: for each symbol in order, each
/// item in order, combined by `f`.
pub open spec fn spec_expand(
    items: Seq<Seq<char>>,
    syms: Seq<Seq<char>>,
    f: spec_fn(Seq<char>, Seq<char>) -> Seq<char>,
) -> Seq<Seq<char>>
    decreases syms.len(),
{
    if syms.len() == 0 {
        Seq::empty()
    } else {
        items.map_values(|it: Seq<char>| f(it, syms[0])) + spec_expand(items, syms.skip(1), f)
    }
}

proof fn lemma_expand_push(
    items: Seq<Seq<char>>,
    syms: Seq<Seq<char>>,
    sym: Seq<char>,
    f: spec_fn(Seq<char>, Seq<char>) -> Seq<char>,
)
    ensures
        spec_expand(items, syms.push(sym), f) == spec_expand(items, syms, f) + items.map_values(
            |it: Seq<char>| f(it, sym),
        ),
    decreases syms.len(),
{
    if syms.len() == 0 {
        assert(syms.push(sym)[0] == sym);
        assert(syms.push(sym).skip(1) =~= syms);
        assert(spec_expand(items, syms.push(sym), f) =~= spec_expand(items, syms, f)
            + items.map_values(|it: Seq<char>| f(it, sym)));
    } else {
        lemma_expand_push(items, syms.skip(1), sym, f);
        assert(syms.push(sym)[0] == syms[0]);
        assert(syms.push(sym).skip(1) =~= syms.skip(1).push(sym));
        assert(spec_expand(items, syms.push(sym), f) =~= spec_expand(items, syms, f)
            + items.map_values(|it: Seq<char>| f(it, sym)));
    }
}

/// The placeholder-substitution of one template for one symbol, in the
/// symbol's lower-case (`upper` false) or upper-case (`upper` true) form.
pub open spec fn spec_template_fill(upper: bool) -> spec_fn(Seq<char>, Seq<char>) -> Seq<char> {
    if upper {
        |st: Seq<char>, sym: Seq<char>| spec_replace_all(st, "$symbol"@, upper_of(sym))
    } else {
        |st: Seq<char>, sym: Seq<char>| spec_replace_all(st, "$symbol"@, lower_of(sym))
    }
}

/// Instantiate every template for every symbol, substituting the symbol
/// (lower- or upper-cased) for the `$symbol` placeholder.
#[verifier::loop_isolation(false)]
pub fn expand_templates(templates: &Vec<String>, symbols: &Vec<String>, upper: bool) -> (r: Vec<
    String,
>)
    ensures
        r.deep_view() == spec_expand(
            templates.deep_view(),
            symbols.deep_view(),
            spec_template_fill(upper),
        ),
{
    let ghost f = spec_template_fill(upper);
    let mut r: Vec<String> = Vec::new();
    let mut si: usize = 0;
    proof {
        assert(symbols.deep_view().take(0) =~= Seq::<Seq<char>>::empty());
        assert(r.deep_view() =~= spec_expand(templates.deep_view(), symbols.deep_view().take(0), f));
    }
    while si < symbols.len()
        invariant
            si <= symbols@.len(),
            r.deep_view() == spec_expand(
                templates.deep_view(),
                symbols.deep_view().take(si as int),
                f,
            ),
        decreases symbols@.len() - si,
    {
        let cased = if upper {
            to_uppercase(symbols[si].as_str())
        } else {
            to_lowercase(symbols[si].as_str())
        };
        let ghost r0 = r.deep_view();
        let mut ti: usize = 0;
        proof {
            assert(templates.deep_view().take(0).map_values(
                |it: Seq<char>| f(it, symbols.deep_view()[si as int]),
            ) =~= Seq::<Seq<char>>::empty());
            assert(r.deep_view() =~= r0 + templates.deep_view().take(0).map_values(
                |it: Seq<char>| f(it, symbols.deep_view()[si as int]),
            ));
        }
        while ti < templates.len()
            invariant
                ti <= templates@.len(),
                r.deep_view() == r0 + templates.deep_view().take(ti as int).map_values(
                    |it: Seq<char>| f(it, symbols.deep_view()[si as int]),
                ),
            decreases templates@.len() - ti,
        {
            let filled = replace_all(templates[ti].as_str(), "$symbol", cased.as_str());
            proof {
                assert(templates.deep_view()[ti as int] == templates@[ti as int]@);
                assert(filled@ == f(
                    templates.deep_view()[ti as int],
                    symbols.deep_view()[si as int],
                ));
            }
            let ghost pre = r.deep_view();
            r.push(filled);
            proof {
                assert(r.deep_view() =~= pre.push(filled@));
                assert(templates.deep_view().take(ti + 1) =~= templates.deep_view().take(
                    ti as int,
                ).push(templates.deep_view()[ti as int]));
                assert(templates.deep_view().take(ti + 1).map_values(
                    |it: Seq<char>| f(it, symbols.deep_view()[si as int]),
                ) =~= templates.deep_view().take(ti as int).map_values(
                    |it: Seq<char>| f(it, symbols.deep_view()[si as int]),
                ).push(f(templates.deep_view()[ti as int], symbols.deep_view()[si as int])));
                assert(r.deep_view() =~= r0 + templates.deep_view().take(ti + 1).map_values(
                    |it: Seq<char>| f(it, symbols.deep_view()[si as int]),
                ));
            }
            ti = ti + 1;
        }
        proof {
            assert(templates.deep_view().take(templates@.len() as int) =~= templates.deep_view());
            lemma_expand_push(
                templates.deep_view(),
                symbols.deep_view().take(si as int),
                symbols.deep_view()[si as int],
                f,
            );
            assert(symbols.deep_view().take(si + 1) =~= symbols.deep_view().take(si as int).push(
                symbols.deep_view()[si as int],
            ));
        }
        si = si + 1;
    }
    proof {
        assert(symbols.deep_view().take(symbols@.len() as int) =~= symbols.deep_view());
    }
    r
}

/// The parts joined by `sep` into one string.
#[verifier::loop_isolation(false)]
pub fn join_with(parts: &Vec<String>, sep: &str) -> (r: String)
    ensures
        r@ == spec_join(parts.deep_view(), sep@),
{
    let mut r = String::new();
    let mut i: usize = 0;
    proof {
        assert(parts.deep_view().take(0) =~= Seq::<Seq<char>>::empty());
    }
    while i < parts.len()
        invariant
            i <= parts@.len(),
            r@ == spec_join(parts.deep_view().take(i as int), sep@),
        decreases parts@.len() - i,
    {
        if i > 0 {
            r.append(sep);
        }
        r.append(parts[i].as_str());
        proof {
            lemma_join_push(parts.deep_view().take(i as int), sep@, parts.deep_view()[i as int]);
            assert(parts.deep_view().take(i + 1) =~= parts.deep_view().take(i as int).push(
                parts.deep_view()[i as int],
            ));
        }
        i = i + 1;
    }
    proof {
        assert(parts.deep_view().take(parts@.len() as int) =~= parts.deep_view());
    }
    r
}

/// The multiplexed stream URL of the first exchange: every stream×symbol
/// combination, slash-separated, in one connection URL.
pub fn binance_stream_url(streams: &Vec<String>, symbols: &Vec<String>) -> (r: String)
    ensures
        r@ == "wss://stream.binance.com:9443/stream?streams="@ + spec_join(
            spec_expand(streams.deep_view(), symbols.deep_view(), spec_template_fill(false)),
            "/"@,
        ),
{
    let parts = expand_templates(streams, symbols, false);
    let joined = join_with(&parts, "/");
    let mut r = String::from_str("wss://stream.binance.com:9443/stream?streams=");
    r.append(joined.as_str());
    r
}

/// A topic string wrapped in JSON double quotes.
pub open spec fn quoted(t: Seq<char>) -> Seq<char> {
    seq!['"'] + t + seq!['"']
}

/// The subscribe control message of the second exchange, listing every
/// expanded topic.
pub open spec fn spec_subscribe_message(topics: Seq<Seq<char>>) -> Seq<char> {
    "{\"req_id\": \"subscribe\", \"op\": \"subscribe\", \"args\": ["@ + spec_join(
        topics.map_values(|t: Seq<char>| quoted(t)),
        ","@,
    ) + "]}"@
}

#[verifier::loop_isolation(false)]
pub fn subscribe_message(topics: &Vec<String>) -> (r: String)
    ensures
        r@ == spec_subscribe_message(topics.deep_view()),
{
    let mut r = String::from_str("{\"req_id\": \"subscribe\", \"op\": \"subscribe\", \"args\": [");
    let mut i: usize = 0;
    proof {
        assert(topics.deep_view().take(0).map_values(|t: Seq<char>| quoted(t))
            =~= Seq::<Seq<char>>::empty());
    }
    while i < topics.len()
        invariant
            i <= topics@.len(),
            r@ == "{\"req_id\": \"subscribe\", \"op\": \"subscribe\", \"args\": ["@ + spec_join(
                topics.deep_view().take(i as int).map_values(|t: Seq<char>| quoted(t)),
                ","@,
            ),
        decreases topics@.len() - i,
    {
        if i > 0 {
            r.append(",");
        }
        r.append("\"");
        r.append(topics[i].as_str());
        r.append("\"");
        proof {
            reveal_strlit(",");
            reveal_strlit("\"");
            lemma_join_push(
                topics.deep_view().take(i as int).map_values(|t: Seq<char>| quoted(t)),
                ","@,
                quoted(topics.deep_view()[i as int]),
            );
            assert(topics.deep_view().take(i + 1).map_values(|t: Seq<char>| quoted(t))
                =~= topics.deep_view().take(i as int).map_values(|t: Seq<char>| quoted(t)).push(
                quoted(topics.deep_view()[i as int]),
            ));
            assert("\""@ =~= seq!['"']);
            assert(","@ =~= seq![',']);
            assert(r@ =~= "{\"req_id\": \"subscribe\", \"op\": \"subscribe\", \"args\": ["@
                + spec_join(
                topics.deep_view().take(i + 1).map_values(|t: Seq<char>| quoted(t)),
                ","@,
            ));
        }
        i = i + 1;
    }
    r.append("]}");
    proof {
        assert(topics.deep_view().take(topics@.len() as int) =~= topics.deep_view());
        assert(r@ =~= spec_subscribe_message(topics.deep_view()));
    }
    r
}

/// One subscription control message of the third exchange.
pub open spec fn spec_hl_subscription(ty: Seq<char>, sym: Seq<char>) -> Seq<char> {
    "{\"method\":\"subscribe\",\"subscription\":{\"type\":\""@ + ty + "\",\"coin\":\""@ + sym
        + "\"}}"@
}

/// The subscription messages of the third exchange: one JSON control
/// message per symbol×type combination, symbol-major in order.
#[verifier::loop_isolation(false)]
pub fn hyperliquid_subscriptions(types: &Vec<String>, symbols: &Vec<String>) -> (r: Vec<String>)
    ensures
        r.deep_view() == spec_expand(
            types.deep_view(),
            symbols.deep_view(),
            |ty: Seq<char>, sym: Seq<char>| spec_hl_subscription(ty, sym),
        ),
{
    let ghost f = |ty: Seq<char>, sym: Seq<char>| spec_hl_subscription(ty, sym);
    let mut r: Vec<String> = Vec::new();
    let mut si: usize = 0;
    proof {
        assert(symbols.deep_view().take(0) =~= Seq::<Seq<char>>::empty());
        assert(r.deep_view() =~= spec_expand(types.deep_view(), symbols.deep_view().take(0), f));
    }
    while si < symbols.len()
        invariant
            si <= symbols@.len(),
            r.deep_view() == spec_expand(types.deep_view(), symbols.deep_view().take(si as int), f),
        decreases symbols@.len() - si,
    {
        let ghost r0 = r.deep_view();
        let mut ti: usize = 0;
        proof {
            assert(types.deep_view().take(0).map_values(
                |it: Seq<char>| f(it, symbols.deep_view()[si as int]),
            ) =~= Seq::<Seq<char>>::empty());
            assert(r.deep_view() =~= r0 + types.deep_view().take(0).map_values(
                |it: Seq<char>| f(it, symbols.deep_view()[si as int]),
            ));
        }
        while ti < types.len()
            invariant
                ti <= types@.len(),
                r.deep_view() == r0 + types.deep_view().take(ti as int).map_values(
                    |it: Seq<char>| f(it, symbols.deep_view()[si as int]),
                ),
            decreases types@.len() - ti,
        {
            let mut msg = String::from_str("{\"method\":\"subscribe\",\"subscription\":{\"type\":\"");
            msg.append(types[ti].as_str());
            msg.append("\",\"coin\":\"");
            msg.append(symbols[si].as_str());
            msg.append("\"}}");
            proof {
                assert(msg@ =~= spec_hl_subscription(
                    types.deep_view()[ti as int],
                    symbols.deep_view()[si as int],
                ));
                assert(msg@ == f(types.deep_view()[ti as int], symbols.deep_view()[si as int]));
            }
            let ghost pre = r.deep_view();
            r.push(msg);
            proof {
                assert(r.deep_view() =~= pre.push(msg@));
                assert(types.deep_view().take(ti + 1) =~= types.deep_view().take(ti as int).push(
                    types.deep_view()[ti as int],
                ));
                assert(types.deep_view().take(ti + 1).map_values(
                    |it: Seq<char>| f(it, symbols.deep_view()[si as int]),
                ) =~= types.deep_view().take(ti as int).map_values(
                    |it: Seq<char>| f(it, symbols.deep_view()[si as int]),
                ).push(f(types.deep_view()[ti as int], symbols.deep_view()[si as int])));
                assert(r.deep_view() =~= r0 + types.deep_view().take(ti + 1).map_values(
                    |it: Seq<char>| f(it, symbols.deep_view()[si as int]),
                ));
            }
            ti = ti + 1;
        }
        proof {
            assert(types.deep_view().take(types@.len() as int) =~= types.deep_view());
            lemma_expand_push(
                types.deep_view(),
                symbols.deep_view().take(si as int),
                symbols.deep_view()[si as int],
                f,
            );
            assert(symbols.deep_view().take(si + 1) =~= symbols.deep_view().take(si as int).push(
                symbols.deep_view()[si as int],
            ));
        }
        si = si + 1;
    }
    proof {
        assert(symbols.deep_view().take(symbols@.len() as int) =~= symbols.deep_view());
    }
    r
}

} // verus!
