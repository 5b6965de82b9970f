use vstd::prelude::*;

use super::{Action, Boostagram, BoostagramView, empty_envelope_view};
use super::fields::{apply_member, apply_member_exec,
    key_podcast, key_feed_id, key_url, key_guid, key_episode, key_item_id, key_episode_guid,
    key_time, key_ts, key_action, key_app_name, key_app_version, key_boost_link, key_message,
    key_name, key_sender_name, key_sender_id, key_signature, key_speed, key_uuid,
    key_value_msat_total, key_reply_address, key_reply_custom_key, key_reply_custom_value,
    action_name};
use crate::jsontext::print::{quoted, dec_digits, append_quoted, append_dec};
use crate::jsontext::value::{JsonVal, JsonValue};
use crate::jsontext::parse::{skip_ws, parse_string_body, parse_value, ws_end, scan_string_body,
    scan_value};

verus! {

/// One emitted attribute: its key and either a text or a numeric value.
pub enum WireMember {
    Text(Seq<char>, Seq<char>),
    Num(Seq<char>, nat),
}

/// The wire text of one attribute.
pub open spec fn member_text(m: WireMember) -> Seq<char> {
    match m {
        WireMember::Text(k, t) => quoted(k) + seq![':'] + quoted(t),
        WireMember::Num(k, n) => quoted(k) + seq![':'] + dec_digits(n),
    }
}

/// The wire text of the attributes, joined with commas.
pub open spec fn members_text(ms: Seq<WireMember>) -> Seq<char>
    decreases ms.len(),
{
    if ms.len() == 0 {
        Seq::empty()
    } else if ms.len() == 1 {
        member_text(ms[0])
    } else {
        member_text(ms[0]) + seq![','] + members_text(ms.skip(1))
    }
}

/// Joining distributes over appending one attribute.
pub proof fn lemma_members_text_snoc(ms: Seq<WireMember>, m: WireMember)
    ensures
        members_text(ms.push(m)) == if ms.len() == 0 {
            member_text(m)
        } else {
            members_text(ms) + seq![','] + member_text(m)
        },
    decreases ms.len(),
{
    if ms.len() == 0 {
        assert(ms.push(m)[0] == m);
        assert(ms.push(m).len() == 1);
    } else if ms.len() == 1 {
        assert(ms.push(m)[0] == ms[0]);
        let single = Seq::<WireMember>::empty().push(m);
        assert(single[0] == m);
        assert(single.len() == 1);
        assert(members_text(single) == member_text(m));
        assert(ms.push(m).skip(1) =~= single);
        assert(members_text(ms.push(m)) == member_text(ms[0]) + seq![','] + member_text(m));
        assert(members_text(ms) == member_text(ms[0]));
    } else {
        assert(ms.push(m)[0] == ms[0]);
        assert(ms.push(m).skip(1) =~= ms.skip(1).push(m));
        lemma_members_text_snoc(ms.skip(1), m);
        assert(member_text(ms[0]) + seq![','] + (members_text(ms.skip(1)) + seq![','] + member_text(
            m,
        )) =~= (member_text(ms[0]) + seq![','] + members_text(ms.skip(1))) + seq![','] + member_text(
            m,
        ));
    }
}

pub open spec fn identity_members(ms0: Seq<WireMember>, v: BoostagramView) -> Seq<WireMember> {
    let ms = ms0;
    let ms = if v.podcast is Some {
        ms.push(WireMember::Text(key_podcast(), v.podcast.unwrap()))
    } else {
        ms
    };
    let ms = if v.feed_id is Some {
        ms.push(WireMember::Num(key_feed_id(), v.feed_id.unwrap() as nat))
    } else {
        ms
    };
    let ms = if v.url is Some {
        ms.push(WireMember::Text(key_url(), v.url.unwrap()))
    } else {
        ms
    };
    let ms = if v.guid is Some {
        ms.push(WireMember::Text(key_guid(), v.guid.unwrap()))
    } else {
        ms
    };
    let ms = if v.episode is Some {
        ms.push(WireMember::Text(key_episode(), v.episode.unwrap()))
    } else {
        ms
    };
    let ms = if v.item_id is Some {
        ms.push(WireMember::Num(key_item_id(), v.item_id.unwrap() as nat))
    } else {
        ms
    };
    let ms = if v.episode_guid is Some {
        ms.push(WireMember::Text(key_episode_guid(), v.episode_guid.unwrap()))
    } else {
        ms
    };
    let ms = if v.time is Some {
        ms.push(WireMember::Text(key_time(), v.time.unwrap()))
    } else {
        ms
    };
    ms
}

pub open spec fn annotation_members(ms0: Seq<WireMember>, v: BoostagramView) -> Seq<WireMember> {
    let ms = ms0;
    let ms = if v.ts is Some {
        ms.push(WireMember::Num(key_ts(), v.ts.unwrap() as nat))
    } else {
        ms
    };
    let ms = if v.action is Some {
        ms.push(WireMember::Text(key_action(), action_name(v.action.unwrap())))
    } else {
        ms
    };
    let ms = if v.app_name is Some {
        ms.push(WireMember::Text(key_app_name(), v.app_name.unwrap()))
    } else {
        ms
    };
    let ms = if v.app_version is Some {
        ms.push(WireMember::Text(key_app_version(), v.app_version.unwrap()))
    } else {
        ms
    };
    let ms = if v.boost_link is Some {
        ms.push(WireMember::Text(key_boost_link(), v.boost_link.unwrap()))
    } else {
        ms
    };
    let ms = if v.message is Some {
        ms.push(WireMember::Text(key_message(), v.message.unwrap()))
    } else {
        ms
    };
    let ms = if v.name is Some {
        ms.push(WireMember::Text(key_name(), v.name.unwrap()))
    } else {
        ms
    };
    let ms = if v.sender_name is Some {
        ms.push(WireMember::Text(key_sender_name(), v.sender_name.unwrap()))
    } else {
        ms
    };
    ms
}

pub open spec fn sender_members(ms0: Seq<WireMember>, v: BoostagramView) -> Seq<WireMember> {
    let ms = ms0;
    let ms = if v.sender_id is Some {
        ms.push(WireMember::Text(key_sender_id(), v.sender_id.unwrap()))
    } else {
        ms
    };
    let ms = if v.signature is Some {
        ms.push(WireMember::Text(key_signature(), v.signature.unwrap()))
    } else {
        ms
    };
    let ms = if v.speed is Some {
        ms.push(WireMember::Text(key_speed(), v.speed.unwrap()))
    } else {
        ms
    };
    let ms = if v.uuid is Some {
        ms.push(WireMember::Text(key_uuid(), v.uuid.unwrap()))
    } else {
        ms
    };
    let ms = if v.value_msat_total is Some {
        ms.push(WireMember::Num(key_value_msat_total(), v.value_msat_total.unwrap() as nat))
    } else {
        ms
    };
    let ms = if v.reply_address is Some {
        ms.push(WireMember::Text(key_reply_address(), v.reply_address.unwrap()))
    } else {
        ms
    };
    let ms = if v.reply_custom_key is Some {
        ms.push(WireMember::Num(key_reply_custom_key(), v.reply_custom_key.unwrap() as nat))
    } else {
        ms
    };
    let ms = if v.reply_custom_value is Some {
        ms.push(WireMember::Text(key_reply_custom_value(), v.reply_custom_value.unwrap()))
    } else {
        ms
    };
    ms
}

/// The attributes an envelope emits, in schema order: exactly the present
/// ones, each under its wire key.
pub open spec fn members_of(v: BoostagramView) -> Seq<WireMember> {
    sender_members(annotation_members(identity_members(Seq::empty(), v), v), v)
}

/// The structured-text form of an envelope: its present attributes as one
/// object, absent attributes omitted.
pub open spec fn json_of_envelope(v: BoostagramView) -> Seq<char> {
    seq!['{'] + members_text(members_of(v)) + seq!['}']
}

/// Appends `"key":"value"` for a text attribute.
fn append_text_member(out: &mut Vec<char>, key: &str, val: &str)
    ensures
        final(out)@ == old(out)@ + member_text(WireMember::Text(key@, val@)),
{
    append_quoted(out, key);
    out.push(':');
    append_quoted(out, val);
    proof {
        assert(out@ =~= old(out)@ + member_text(WireMember::Text(key@, val@)));
    }
}

/// Appends `"key":number` for a numeric attribute.
fn append_num_member(out: &mut Vec<char>, key: &str, val: u64)
    ensures
        final(out)@ == old(out)@ + member_text(WireMember::Num(key@, val as nat)),
{
    append_quoted(out, key);
    out.push(':');
    append_dec(out, val);
    proof {
        assert(out@ =~= old(out)@ + member_text(WireMember::Num(key@, val as nat)));
    }
}

fn put_podcast(
    out: &mut Vec<char>,
    b: &Boostagram,
    first: &mut bool,
    Ghost(ms0): Ghost<Seq<WireMember>>,
) -> (r: Ghost<Seq<WireMember>>)
    requires
        old(out)@ == seq!['{'] + members_text(ms0),
        *old(first) <==> ms0.len() == 0,
    ensures
        r@ == (if b@.podcast is Some {
            ms0.push(WireMember::Text(key_podcast(), b@.podcast.unwrap()))
        } else {
            ms0
        }),
        final(out)@ == seq!['{'] + members_text(r@),
        *final(first) <==> r@.len() == 0,
{
    let ghost mut ms: Seq<WireMember> = ms0;
    if let Some(x) = &b.podcast {
        if !*first {
            out.push(',');
        }
        append_text_member(out, "podcast", x.as_str());
        proof {
            lemma_members_text_snoc(ms, WireMember::Text(key_podcast(), x@));
            ms = ms.push(WireMember::Text(key_podcast(), x@));
            assert(out@ =~= seq!['{'] + members_text(ms));
        }
        *first = false;
    }
    Ghost(ms)
}

fn put_feed_id(
    out: &mut Vec<char>,
    b: &Boostagram,
    first: &mut bool,
    Ghost(ms0): Ghost<Seq<WireMember>>,
) -> (r: Ghost<Seq<WireMember>>)
    requires
        old(out)@ == seq!['{'] + members_text(ms0),
        *old(first) <==> ms0.len() == 0,
    ensures
        r@ == (if b@.feed_id is Some {
            ms0.push(WireMember::Num(key_feed_id(), b@.feed_id.unwrap() as nat))
        } else {
            ms0
        }),
        final(out)@ == seq!['{'] + members_text(r@),
        *final(first) <==> r@.len() == 0,
{
    let ghost mut ms: Seq<WireMember> = ms0;
    if let Some(x) = b.feed_id {
        if !*first {
            out.push(',');
        }
        append_num_member(out, "feedID", x as u64);
        proof {
            lemma_members_text_snoc(ms, WireMember::Num(key_feed_id(), x as nat));
            ms = ms.push(WireMember::Num(key_feed_id(), x as nat));
            assert(out@ =~= seq!['{'] + members_text(ms));
        }
        *first = false;
    }
    Ghost(ms)
}

fn put_url(
    out: &mut Vec<char>,
    b: &Boostagram,
    first: &mut bool,
    Ghost(ms0): Ghost<Seq<WireMember>>,
) -> (r: Ghost<Seq<WireMember>>)
    requires
        old(out)@ == seq!['{'] + members_text(ms0),
        *old(first) <==> ms0.len() == 0,
    ensures
        r@ == (if b@.url is Some {
            ms0.push(WireMember::Text(key_url(), b@.url.unwrap()))
        } else {
            ms0
        }),
        final(out)@ == seq!['{'] + members_text(r@),
        *final(first) <==> r@.len() == 0,
{
    let ghost mut ms: Seq<WireMember> = ms0;
    if let Some(x) = &b.url {
        if !*first {
            out.push(',');
        }
        append_text_member(out, "url", x.as_str());
        proof {
            lemma_members_text_snoc(ms, WireMember::Text(key_url(), x@));
            ms = ms.push(WireMember::Text(key_url(), x@));
            assert(out@ =~= seq!['{'] + members_text(ms));
        }
        *first = false;
    }
    Ghost(ms)
}

fn put_guid(
    out: &mut Vec<char>,
    b: &Boostagram,
    first: &mut bool,
    Ghost(ms0): Ghost<Seq<WireMember>>,
) -> (r: Ghost<Seq<WireMember>>)
    requires
        old(out)@ == seq!['{'] + members_text(ms0),
        *old(first) <==> ms0.len() == 0,
    ensures
        r@ == (if b@.guid is Some {
            ms0.push(WireMember::Text(key_guid(), b@.guid.unwrap()))
        } else {
            ms0
        }),
        final(out)@ == seq!['{'] + members_text(r@),
        *final(first) <==> r@.len() == 0,
{
    let ghost mut ms: Seq<WireMember> = ms0;
    if let Some(x) = &b.guid {
        if !*first {
            out.push(',');
        }
        append_text_member(out, "guid", x.as_str());
        proof {
            lemma_members_text_snoc(ms, WireMember::Text(key_guid(), x@));
            ms = ms.push(WireMember::Text(key_guid(), x@));
            assert(out@ =~= seq!['{'] + members_text(ms));
        }
        *first = false;
    }
    Ghost(ms)
}

fn put_episode(
    out: &mut Vec<char>,
    b: &Boostagram,
    first: &mut bool,
    Ghost(ms0): Ghost<Seq<WireMember>>,
) -> (r: Ghost<Seq<WireMember>>)
    requires
        old(out)@ == seq!['{'] + members_text(ms0),
        *old(first) <==> ms0.len() == 0,
    ensures
        r@ == (if b@.episode is Some {
            ms0.push(WireMember::Text(key_episode(), b@.episode.unwrap()))
        } else {
            ms0
        }),
        final(out)@ == seq!['{'] + members_text(r@),
        *final(first) <==> r@.len() == 0,
{
    let ghost mut ms: Seq<WireMember> = ms0;
    if let Some(x) = &b.episode {
        if !*first {
            out.push(',');
        }
        append_text_member(out, "episode", x.as_str());
        proof {
            lemma_members_text_snoc(ms, WireMember::Text(key_episode(), x@));
            ms = ms.push(WireMember::Text(key_episode(), x@));
            assert(out@ =~= seq!['{'] + members_text(ms));
        }
        *first = false;
    }
    Ghost(ms)
}

fn put_item_id(
    out: &mut Vec<char>,
    b: &Boostagram,
    first: &mut bool,
    Ghost(ms0): Ghost<Seq<WireMember>>,
) -> (r: Ghost<Seq<WireMember>>)
    requires
        old(out)@ == seq!['{'] + members_text(ms0),
        *old(first) <==> ms0.len() == 0,
    ensures
        r@ == (if b@.item_id is Some {
            ms0.push(WireMember::Num(key_item_id(), b@.item_id.unwrap() as nat))
        } else {
            ms0
        }),
        final(out)@ == seq!['{'] + members_text(r@),
        *final(first) <==> r@.len() == 0,
{
    let ghost mut ms: Seq<WireMember> = ms0;
    if let Some(x) = b.item_id {
        if !*first {
            out.push(',');
        }
        append_num_member(out, "itemID", x as u64);
        proof {
            lemma_members_text_snoc(ms, WireMember::Num(key_item_id(), x as nat));
            ms = ms.push(WireMember::Num(key_item_id(), x as nat));
            assert(out@ =~= seq!['{'] + members_text(ms));
        }
        *first = false;
    }
    Ghost(ms)
}

fn put_episode_guid(
    out: &mut Vec<char>,
    b: &Boostagram,
    first: &mut bool,
    Ghost(ms0): Ghost<Seq<WireMember>>,
) -> (r: Ghost<Seq<WireMember>>)
    requires
        old(out)@ == seq!['{'] + members_text(ms0),
        *old(first) <==> ms0.len() == 0,
    ensures
        r@ == (if b@.episode_guid is Some {
            ms0.push(WireMember::Text(key_episode_guid(), b@.episode_guid.unwrap()))
        } else {
            ms0
        }),
        final(out)@ == seq!['{'] + members_text(r@),
        *final(first) <==> r@.len() == 0,
{
    let ghost mut ms: Seq<WireMember> = ms0;
    if let Some(x) = &b.episode_guid {
        if !*first {
            out.push(',');
        }
        append_text_member(out, "episode_guid", x.as_str());
        proof {
            lemma_members_text_snoc(ms, WireMember::Text(key_episode_guid(), x@));
            ms = ms.push(WireMember::Text(key_episode_guid(), x@));
            assert(out@ =~= seq!['{'] + members_text(ms));
        }
        *first = false;
    }
    Ghost(ms)
}

fn put_time(
    out: &mut Vec<char>,
    b: &Boostagram,
    first: &mut bool,
    Ghost(ms0): Ghost<Seq<WireMember>>,
) -> (r: Ghost<Seq<WireMember>>)
    requires
        old(out)@ == seq!['{'] + members_text(ms0),
        *old(first) <==> ms0.len() == 0,
    ensures
        r@ == (if b@.time is Some {
            ms0.push(WireMember::Text(key_time(), b@.time.unwrap()))
        } else {
            ms0
        }),
        final(out)@ == seq!['{'] + members_text(r@),
        *final(first) <==> r@.len() == 0,
{
    let ghost mut ms: Seq<WireMember> = ms0;
    if let Some(x) = &b.time {
        if !*first {
            out.push(',');
        }
        append_text_member(out, "time", x.as_str());
        proof {
            lemma_members_text_snoc(ms, WireMember::Text(key_time(), x@));
            ms = ms.push(WireMember::Text(key_time(), x@));
            assert(out@ =~= seq!['{'] + members_text(ms));
        }
        *first = false;
    }
    Ghost(ms)
}

fn put_ts(
    out: &mut Vec<char>,
    b: &Boostagram,
    first: &mut bool,
    Ghost(ms0): Ghost<Seq<WireMember>>,
) -> (r: Ghost<Seq<WireMember>>)
    requires
        old(out)@ == seq!['{'] + members_text(ms0),
        *old(first) <==> ms0.len() == 0,
    ensures
        r@ == (if b@.ts is Some {
            ms0.push(WireMember::Num(key_ts(), b@.ts.unwrap() as nat))
        } else {
            ms0
        }),
        final(out)@ == seq!['{'] + members_text(r@),
        *final(first) <==> r@.len() == 0,
{
    let ghost mut ms: Seq<WireMember> = ms0;
    if let Some(x) = b.ts {
        if !*first {
            out.push(',');
        }
        append_num_member(out, "ts", x as u64);
        proof {
            lemma_members_text_snoc(ms, WireMember::Num(key_ts(), x as nat));
            ms = ms.push(WireMember::Num(key_ts(), x as nat));
            assert(out@ =~= seq!['{'] + members_text(ms));
        }
        *first = false;
    }
    Ghost(ms)
}

fn put_action(
    out: &mut Vec<char>,
    b: &Boostagram,
    first: &mut bool,
    Ghost(ms0): Ghost<Seq<WireMember>>,
) -> (r: Ghost<Seq<WireMember>>)
    requires
        old(out)@ == seq!['{'] + members_text(ms0),
        *old(first) <==> ms0.len() == 0,
    ensures
        r@ == (if b@.action is Some {
            ms0.push(WireMember::Text(key_action(), action_name(b@.action.unwrap())))
        } else {
            ms0
        }),
        final(out)@ == seq!['{'] + members_text(r@),
        *final(first) <==> r@.len() == 0,
{
    let ghost mut ms: Seq<WireMember> = ms0;
    if let Some(a) = b.action {
        if !*first {
            out.push(',');
        }
        match a {
            Action::Stream => append_text_member(out, "action", "stream"),
            Action::Boost => append_text_member(out, "action", "boost"),
            Action::Lsat => append_text_member(out, "action", "lsat"),
            Action::Auto => append_text_member(out, "action", "auto"),
            Action::Unknown => append_text_member(out, "action", "Unknown"),
        }
        proof {
            lemma_members_text_snoc(ms, WireMember::Text(key_action(), action_name(a)));
            ms = ms.push(WireMember::Text(key_action(), action_name(a)));
            assert(out@ =~= seq!['{'] + members_text(ms));
        }
        *first = false;
    }
    Ghost(ms)
}

fn put_app_name(
    out: &mut Vec<char>,
    b: &Boostagram,
    first: &mut bool,
    Ghost(ms0): Ghost<Seq<WireMember>>,
) -> (r: Ghost<Seq<WireMember>>)
    requires
        old(out)@ == seq!['{'] + members_text(ms0),
        *old(first) <==> ms0.len() == 0,
    ensures
        r@ == (if b@.app_name is Some {
            ms0.push(WireMember::Text(key_app_name(), b@.app_name.unwrap()))
        } else {
            ms0
        }),
        final(out)@ == seq!['{'] + members_text(r@),
        *final(first) <==> r@.len() == 0,
{
    let ghost mut ms: Seq<WireMember> = ms0;
    if let Some(x) = &b.app_name {
        if !*first {
            out.push(',');
        }
        append_text_member(out, "app_name", x.as_str());
        proof {
            lemma_members_text_snoc(ms, WireMember::Text(key_app_name(), x@));
            ms = ms.push(WireMember::Text(key_app_name(), x@));
            assert(out@ =~= seq!['{'] + members_text(ms));
        }
        *first = false;
    }
    Ghost(ms)
}

fn put_app_version(
    out: &mut Vec<char>,
    b: &Boostagram,
    first: &mut bool,
    Ghost(ms0): Ghost<Seq<WireMember>>,
) -> (r: Ghost<Seq<WireMember>>)
    requires
        old(out)@ == seq!['{'] + members_text(ms0),
        *old(first) <==> ms0.len() == 0,
    ensures
        r@ == (if b@.app_version is Some {
            ms0.push(WireMember::Text(key_app_version(), b@.app_version.unwrap()))
        } else {
            ms0
        }),
        final(out)@ == seq!['{'] + members_text(r@),
        *final(first) <==> r@.len() == 0,
{
    let ghost mut ms: Seq<WireMember> = ms0;
    if let Some(x) = &b.app_version {
        if !*first {
            out.push(',');
        }
        append_text_member(out, "app_version", x.as_str());
        proof {
            lemma_members_text_snoc(ms, WireMember::Text(key_app_version(), x@));
            ms = ms.push(WireMember::Text(key_app_version(), x@));
            assert(out@ =~= seq!['{'] + members_text(ms));
        }
        *first = false;
    }
    Ghost(ms)
}

fn put_boost_link(
    out: &mut Vec<char>,
    b: &Boostagram,
    first: &mut bool,
    Ghost(ms0): Ghost<Seq<WireMember>>,
) -> (r: Ghost<Seq<WireMember>>)
    requires
        old(out)@ == seq!['{'] + members_text(ms0),
        *old(first) <==> ms0.len() == 0,
    ensures
        r@ == (if b@.boost_link is Some {
            ms0.push(WireMember::Text(key_boost_link(), b@.boost_link.unwrap()))
        } else {
            ms0
        }),
        final(out)@ == seq!['{'] + members_text(r@),
        *final(first) <==> r@.len() == 0,
{
    let ghost mut ms: Seq<WireMember> = ms0;
    if let Some(x) = &b.boost_link {
        if !*first {
            out.push(',');
        }
        append_text_member(out, "boost_link", x.as_str());
        proof {
            lemma_members_text_snoc(ms, WireMember::Text(key_boost_link(), x@));
            ms = ms.push(WireMember::Text(key_boost_link(), x@));
            assert(out@ =~= seq!['{'] + members_text(ms));
        }
        *first = false;
    }
    Ghost(ms)
}

fn put_message(
    out: &mut Vec<char>,
    b: &Boostagram,
    first: &mut bool,
    Ghost(ms0): Ghost<Seq<WireMember>>,
) -> (r: Ghost<Seq<WireMember>>)
    requires
        old(out)@ == seq!['{'] + members_text(ms0),
        *old(first) <==> ms0.len() == 0,
    ensures
        r@ == (if b@.message is Some {
            ms0.push(WireMember::Text(key_message(), b@.message.unwrap()))
        } else {
            ms0
        }),
        final(out)@ == seq!['{'] + members_text(r@),
        *final(first) <==> r@.len() == 0,
{
    let ghost mut ms: Seq<WireMember> = ms0;
    if let Some(x) = &b.message {
        if !*first {
            out.push(',');
        }
        append_text_member(out, "message", x.as_str());
        proof {
            lemma_members_text_snoc(ms, WireMember::Text(key_message(), x@));
            ms = ms.push(WireMember::Text(key_message(), x@));
            assert(out@ =~= seq!['{'] + members_text(ms));
        }
        *first = false;
    }
    Ghost(ms)
}

fn put_name(
    out: &mut Vec<char>,
    b: &Boostagram,
    first: &mut bool,
    Ghost(ms0): Ghost<Seq<WireMember>>,
) -> (r: Ghost<Seq<WireMember>>)
    requires
        old(out)@ == seq!['{'] + members_text(ms0),
        *old(first) <==> ms0.len() == 0,
    ensures
        r@ == (if b@.name is Some {
            ms0.push(WireMember::Text(key_name(), b@.name.unwrap()))
        } else {
            ms0
        }),
        final(out)@ == seq!['{'] + members_text(r@),
        *final(first) <==> r@.len() == 0,
{
    let ghost mut ms: Seq<WireMember> = ms0;
    if let Some(x) = &b.name {
        if !*first {
            out.push(',');
        }
        append_text_member(out, "name", x.as_str());
        proof {
            lemma_members_text_snoc(ms, WireMember::Text(key_name(), x@));
            ms = ms.push(WireMember::Text(key_name(), x@));
            assert(out@ =~= seq!['{'] + members_text(ms));
        }
        *first = false;
    }
    Ghost(ms)
}

fn put_sender_name(
    out: &mut Vec<char>,
    b: &Boostagram,
    first: &mut bool,
    Ghost(ms0): Ghost<Seq<WireMember>>,
) -> (r: Ghost<Seq<WireMember>>)
    requires
        old(out)@ == seq!['{'] + members_text(ms0),
        *old(first) <==> ms0.len() == 0,
    ensures
        r@ == (if b@.sender_name is Some {
            ms0.push(WireMember::Text(key_sender_name(), b@.sender_name.unwrap()))
        } else {
            ms0
        }),
        final(out)@ == seq!['{'] + members_text(r@),
        *final(first) <==> r@.len() == 0,
{
    let ghost mut ms: Seq<WireMember> = ms0;
    if let Some(x) = &b.sender_name {
        if !*first {
            out.push(',');
        }
        append_text_member(out, "sender_name", x.as_str());
        proof {
            lemma_members_text_snoc(ms, WireMember::Text(key_sender_name(), x@));
            ms = ms.push(WireMember::Text(key_sender_name(), x@));
            assert(out@ =~= seq!['{'] + members_text(ms));
        }
        *first = false;
    }
    Ghost(ms)
}

fn put_sender_id(
    out: &mut Vec<char>,
    b: &Boostagram,
    first: &mut bool,
    Ghost(ms0): Ghost<Seq<WireMember>>,
) -> (r: Ghost<Seq<WireMember>>)
    requires
        old(out)@ == seq!['{'] + members_text(ms0),
        *old(first) <==> ms0.len() == 0,
    ensures
        r@ == (if b@.sender_id is Some {
            ms0.push(WireMember::Text(key_sender_id(), b@.sender_id.unwrap()))
        } else {
            ms0
        }),
        final(out)@ == seq!['{'] + members_text(r@),
        *final(first) <==> r@.len() == 0,
{
    let ghost mut ms: Seq<WireMember> = ms0;
    if let Some(x) = &b.sender_id {
        if !*first {
            out.push(',');
        }
        append_text_member(out, "sender_id", x.as_str());
        proof {
            lemma_members_text_snoc(ms, WireMember::Text(key_sender_id(), x@));
            ms = ms.push(WireMember::Text(key_sender_id(), x@));
            assert(out@ =~= seq!['{'] + members_text(ms));
        }
        *first = false;
    }
    Ghost(ms)
}

fn put_signature(
    out: &mut Vec<char>,
    b: &Boostagram,
    first: &mut bool,
    Ghost(ms0): Ghost<Seq<WireMember>>,
) -> (r: Ghost<Seq<WireMember>>)
    requires
        old(out)@ == seq!['{'] + members_text(ms0),
        *old(first) <==> ms0.len() == 0,
    ensures
        r@ == (if b@.signature is Some {
            ms0.push(WireMember::Text(key_signature(), b@.signature.unwrap()))
        } else {
            ms0
        }),
        final(out)@ == seq!['{'] + members_text(r@),
        *final(first) <==> r@.len() == 0,
{
    let ghost mut ms: Seq<WireMember> = ms0;
    if let Some(x) = &b.signature {
        if !*first {
            out.push(',');
        }
        append_text_member(out, "signature", x.as_str());
        proof {
            lemma_members_text_snoc(ms, WireMember::Text(key_signature(), x@));
            ms = ms.push(WireMember::Text(key_signature(), x@));
            assert(out@ =~= seq!['{'] + members_text(ms));
        }
        *first = false;
    }
    Ghost(ms)
}

fn put_speed(
    out: &mut Vec<char>,
    b: &Boostagram,
    first: &mut bool,
    Ghost(ms0): Ghost<Seq<WireMember>>,
) -> (r: Ghost<Seq<WireMember>>)
    requires
        old(out)@ == seq!['{'] + members_text(ms0),
        *old(first) <==> ms0.len() == 0,
    ensures
        r@ == (if b@.speed is Some {
            ms0.push(WireMember::Text(key_speed(), b@.speed.unwrap()))
        } else {
            ms0
        }),
        final(out)@ == seq!['{'] + members_text(r@),
        *final(first) <==> r@.len() == 0,
{
    let ghost mut ms: Seq<WireMember> = ms0;
    if let Some(x) = &b.speed {
        if !*first {
            out.push(',');
        }
        append_text_member(out, "speed", x.as_str());
        proof {
            lemma_members_text_snoc(ms, WireMember::Text(key_speed(), x@));
            ms = ms.push(WireMember::Text(key_speed(), x@));
            assert(out@ =~= seq!['{'] + members_text(ms));
        }
        *first = false;
    }
    Ghost(ms)
}

fn put_uuid(
    out: &mut Vec<char>,
    b: &Boostagram,
    first: &mut bool,
    Ghost(ms0): Ghost<Seq<WireMember>>,
) -> (r: Ghost<Seq<WireMember>>)
    requires
        old(out)@ == seq!['{'] + members_text(ms0),
        *old(first) <==> ms0.len() == 0,
    ensures
        r@ == (if b@.uuid is Some {
            ms0.push(WireMember::Text(key_uuid(), b@.uuid.unwrap()))
        } else {
            ms0
        }),
        final(out)@ == seq!['{'] + members_text(r@),
        *final(first) <==> r@.len() == 0,
{
    let ghost mut ms: Seq<WireMember> = ms0;
    if let Some(x) = &b.uuid {
        if !*first {
            out.push(',');
        }
        append_text_member(out, "uuid", x.as_str());
        proof {
            lemma_members_text_snoc(ms, WireMember::Text(key_uuid(), x@));
            ms = ms.push(WireMember::Text(key_uuid(), x@));
            assert(out@ =~= seq!['{'] + members_text(ms));
        }
        *first = false;
    }
    Ghost(ms)
}

fn put_value_msat_total(
    out: &mut Vec<char>,
    b: &Boostagram,
    first: &mut bool,
    Ghost(ms0): Ghost<Seq<WireMember>>,
) -> (r: Ghost<Seq<WireMember>>)
    requires
        old(out)@ == seq!['{'] + members_text(ms0),
        *old(first) <==> ms0.len() == 0,
    ensures
        r@ == (if b@.value_msat_total is Some {
            ms0.push(WireMember::Num(key_value_msat_total(), b@.value_msat_total.unwrap() as nat))
        } else {
            ms0
        }),
        final(out)@ == seq!['{'] + members_text(r@),
        *final(first) <==> r@.len() == 0,
{
    let ghost mut ms: Seq<WireMember> = ms0;
    if let Some(x) = b.value_msat_total {
        if !*first {
            out.push(',');
        }
        append_num_member(out, "value_msat_total", x);
        proof {
            lemma_members_text_snoc(ms, WireMember::Num(key_value_msat_total(), x as nat));
            ms = ms.push(WireMember::Num(key_value_msat_total(), x as nat));
            assert(out@ =~= seq!['{'] + members_text(ms));
        }
        *first = false;
    }
    Ghost(ms)
}

fn put_reply_address(
    out: &mut Vec<char>,
    b: &Boostagram,
    first: &mut bool,
    Ghost(ms0): Ghost<Seq<WireMember>>,
) -> (r: Ghost<Seq<WireMember>>)
    requires
        old(out)@ == seq!['{'] + members_text(ms0),
        *old(first) <==> ms0.len() == 0,
    ensures
        r@ == (if b@.reply_address is Some {
            ms0.push(WireMember::Text(key_reply_address(), b@.reply_address.unwrap()))
        } else {
            ms0
        }),
        final(out)@ == seq!['{'] + members_text(r@),
        *final(first) <==> r@.len() == 0,
{
    let ghost mut ms: Seq<WireMember> = ms0;
    if let Some(x) = &b.reply_address {
        if !*first {
            out.push(',');
        }
        append_text_member(out, "reply_address", x.as_str());
        proof {
            lemma_members_text_snoc(ms, WireMember::Text(key_reply_address(), x@));
            ms = ms.push(WireMember::Text(key_reply_address(), x@));
            assert(out@ =~= seq!['{'] + members_text(ms));
        }
        *first = false;
    }
    Ghost(ms)
}

fn put_reply_custom_key(
    out: &mut Vec<char>,
    b: &Boostagram,
    first: &mut bool,
    Ghost(ms0): Ghost<Seq<WireMember>>,
) -> (r: Ghost<Seq<WireMember>>)
    requires
        old(out)@ == seq!['{'] + members_text(ms0),
        *old(first) <==> ms0.len() == 0,
    ensures
        r@ == (if b@.reply_custom_key is Some {
            ms0.push(WireMember::Num(key_reply_custom_key(), b@.reply_custom_key.unwrap() as nat))
        } else {
            ms0
        }),
        final(out)@ == seq!['{'] + members_text(r@),
        *final(first) <==> r@.len() == 0,
{
    let ghost mut ms: Seq<WireMember> = ms0;
    if let Some(x) = b.reply_custom_key {
        if !*first {
            out.push(',');
        }
        append_num_member(out, "reply_custom_key", x as u64);
        proof {
            lemma_members_text_snoc(ms, WireMember::Num(key_reply_custom_key(), x as nat));
            ms = ms.push(WireMember::Num(key_reply_custom_key(), x as nat));
            assert(out@ =~= seq!['{'] + members_text(ms));
        }
        *first = false;
    }
    Ghost(ms)
}

fn put_reply_custom_value(
    out: &mut Vec<char>,
    b: &Boostagram,
    first: &mut bool,
    Ghost(ms0): Ghost<Seq<WireMember>>,
) -> (r: Ghost<Seq<WireMember>>)
    requires
        old(out)@ == seq!['{'] + members_text(ms0),
        *old(first) <==> ms0.len() == 0,
    ensures
        r@ == (if b@.reply_custom_value is Some {
            ms0.push(WireMember::Text(key_reply_custom_value(), b@.reply_custom_value.unwrap()))
        } else {
            ms0
        }),
        final(out)@ == seq!['{'] + members_text(r@),
        *final(first) <==> r@.len() == 0,
{
    let ghost mut ms: Seq<WireMember> = ms0;
    if let Some(x) = &b.reply_custom_value {
        if !*first {
            out.push(',');
        }
        append_text_member(out, "reply_custom_value", x.as_str());
        proof {
            lemma_members_text_snoc(ms, WireMember::Text(key_reply_custom_value(), x@));
            ms = ms.push(WireMember::Text(key_reply_custom_value(), x@));
            assert(out@ =~= seq!['{'] + members_text(ms));
        }
        *first = false;
    }
    Ghost(ms)
}

fn append_identity_members(
    out: &mut Vec<char>,
    b: &Boostagram,
    first: &mut bool,
    Ghost(ms0): Ghost<Seq<WireMember>>,
) -> (r: Ghost<Seq<WireMember>>)
    requires
        old(out)@ == seq!['{'] + members_text(ms0),
        *old(first) <==> ms0.len() == 0,
    ensures
        r@ == identity_members(ms0, b@),
        final(out)@ == seq!['{'] + members_text(r@),
        *final(first) <==> r@.len() == 0,
{
    let ghost_ms = Ghost(ms0);
    let ghost_ms = put_podcast(out, b, first, ghost_ms);
    let ghost_ms = put_feed_id(out, b, first, ghost_ms);
    let ghost_ms = put_url(out, b, first, ghost_ms);
    let ghost_ms = put_guid(out, b, first, ghost_ms);
    let ghost_ms = put_episode(out, b, first, ghost_ms);
    let ghost_ms = put_item_id(out, b, first, ghost_ms);
    let ghost_ms = put_episode_guid(out, b, first, ghost_ms);
    let ghost_ms = put_time(out, b, first, ghost_ms);
    ghost_ms
}

fn append_annotation_members(
    out: &mut Vec<char>,
    b: &Boostagram,
    first: &mut bool,
    Ghost(ms0): Ghost<Seq<WireMember>>,
) -> (r: Ghost<Seq<WireMember>>)
    requires
        old(out)@ == seq!['{'] + members_text(ms0),
        *old(first) <==> ms0.len() == 0,
    ensures
        r@ == annotation_members(ms0, b@),
        final(out)@ == seq!['{'] + members_text(r@),
        *final(first) <==> r@.len() == 0,
{
    let ghost_ms = Ghost(ms0);
    let ghost_ms = put_ts(out, b, first, ghost_ms);
    let ghost_ms = put_action(out, b, first, ghost_ms);
    let ghost_ms = put_app_name(out, b, first, ghost_ms);
    let ghost_ms = put_app_version(out, b, first, ghost_ms);
    let ghost_ms = put_boost_link(out, b, first, ghost_ms);
    let ghost_ms = put_message(out, b, first, ghost_ms);
    let ghost_ms = put_name(out, b, first, ghost_ms);
    let ghost_ms = put_sender_name(out, b, first, ghost_ms);
    ghost_ms
}

fn append_sender_members(
    out: &mut Vec<char>,
    b: &Boostagram,
    first: &mut bool,
    Ghost(ms0): Ghost<Seq<WireMember>>,
) -> (r: Ghost<Seq<WireMember>>)
    requires
        old(out)@ == seq!['{'] + members_text(ms0),
        *old(first) <==> ms0.len() == 0,
    ensures
        r@ == sender_members(ms0, b@),
        final(out)@ == seq!['{'] + members_text(r@),
        *final(first) <==> r@.len() == 0,
{
    let ghost_ms = Ghost(ms0);
    let ghost_ms = put_sender_id(out, b, first, ghost_ms);
    let ghost_ms = put_signature(out, b, first, ghost_ms);
    let ghost_ms = put_speed(out, b, first, ghost_ms);
    let ghost_ms = put_uuid(out, b, first, ghost_ms);
    let ghost_ms = put_value_msat_total(out, b, first, ghost_ms);
    let ghost_ms = put_reply_address(out, b, first, ghost_ms);
    let ghost_ms = put_reply_custom_key(out, b, first, ghost_ms);
    let ghost_ms = put_reply_custom_value(out, b, first, ghost_ms);
    ghost_ms
}

/// Serializes an envelope to its structured-text form.
pub fn encode_json_chars(b: &Boostagram) -> (r: Vec<char>)
    ensures
        r@ == json_of_envelope(b@),
{
    let mut out: Vec<char> = Vec::new();
    out.push('{');
    let mut first: bool = true;
    proof {
        assert(out@ =~= seq!['{'] + members_text(Seq::<WireMember>::empty()));
    }
    let Ghost(ms1) = append_identity_members(&mut out, b, &mut first, Ghost(Seq::empty()));
    let Ghost(ms2) = append_annotation_members(&mut out, b, &mut first, Ghost(ms1));
    let Ghost(ms3) = append_sender_members(&mut out, b, &mut first, Ghost(ms2));
    out.push('}');
    proof {
        assert(ms3 == members_of(b@));
        assert(out@ =~= json_of_envelope(b@));
    }
    out
}

/// Consumes the members of the envelope object, the opening brace already
/// consumed, applying each to the envelope; yields the assembled envelope and
/// the suffix after the closing brace.
pub open spec fn parse_envelope_members(
    s: Seq<char>,
    env: BoostagramView,
    first: bool,
    fuel: nat,
) -> Option<(BoostagramView, Seq<char>)>
    decreases fuel,
{
    if fuel == 0 {
        None
    } else {
        let s1 = skip_ws(s);
        if first && s1.len() > 0 && s1[0] == '}' {
            Some((env, s1.skip(1)))
        } else if s1.len() == 0 || s1[0] != '"' {
            None
        } else {
            match parse_string_body(s1.skip(1)) {
                None => None,
                Some((k, s2)) => {
                    let s3 = skip_ws(s2);
                    if s3.len() == 0 || s3[0] != ':' {
                        None
                    } else {
                        match parse_value(skip_ws(s3.skip(1)), (fuel - 1) as nat) {
                            None => None,
                            Some((val, s4)) => match apply_member(env, k, val) {
                                None => None,
                                Some(env2) => {
                                    let s5 = skip_ws(s4);
                                    if s5.len() == 0 {
                                        None
                                    } else if s5[0] == ',' {
                                        parse_envelope_members(
                                            s5.skip(1),
                                            env2,
                                            false,
                                            (fuel - 1) as nat,
                                        )
                                    } else if s5[0] == '}' {
                                        Some((env2, s5.skip(1)))
                                    } else {
                                        None
                                    }
                                },
                            },
                        }
                    }
                },
            }
        }
    }
}

/// More recursion budget than any input of this length can use.
pub open spec fn decode_fuel(s: Seq<char>) -> nat {
    (2 * s.len() + 4) as nat
}

/// The decoded envelope of a structured-text input: one object whose known
/// attributes are applied under the field rules, with nothing but whitespace
/// around it; `None` on any ill-formed input.
pub open spec fn spec_decode_json(s: Seq<char>) -> Option<BoostagramView> {
    let s1 = skip_ws(s);
    if s1.len() == 0 || s1[0] != '{' {
        None
    } else {
        match parse_envelope_members(s1.skip(1), empty_envelope_view(), true, decode_fuel(s)) {
            None => None,
            Some((env, rest)) => if skip_ws(rest).len() == 0 {
                Some(env)
            } else {
                None
            },
        }
    }
}

/// Decodes an envelope from structured text held as characters.
#[verifier::rlimit(100)]
pub fn scan_envelope(v: &Vec<char>) -> (r: Option<Boostagram>)
    ensures
        match r {
            Some(b) => spec_decode_json(v@) == Some(b@),
            None => spec_decode_json(v@) is None,
        },
{
    let n = v.len();
    proof {
        assert(v@.skip(0) =~= v@);
    }
    let j0 = ws_end(v, 0);
    proof {
        if j0 < n {
            assert(v@.skip(j0 as int)[0] == v@[j0 as int]);
        }
    }
    if j0 == n || v[j0] != '{' {
        return None;
    }
    proof {
        assert(v@.skip(j0 as int).skip(1) =~= v@.skip(j0 as int + 1));
    }
    let mut b = Boostagram {
        podcast: None,
        feed_id: None,
        url: None,
        guid: None,
        episode: None,
        item_id: None,
        episode_guid: None,
        time: None,
        ts: None,
        action: None,
        app_name: None,
        app_version: None,
        boost_link: None,
        message: None,
        name: None,
        sender_name: None,
        sender_id: None,
        signature: None,
        speed: None,
        uuid: None,
        value_msat_total: None,
        reply_address: None,
        reply_custom_key: None,
        reply_custom_value: None,
    };
    proof {
        assert(b@ == empty_envelope_view());
    }
    let mut j = j0 + 1;
    let mut cur_first = true;
    let mut cur_fuel: u128 = 2 * (n as u128) + 4;
    proof {
        assert(cur_fuel as nat == decode_fuel(v@));
    }
    loop
        invariant
            j <= n,
            n == v@.len(),
            spec_decode_json(v@) == (match parse_envelope_members(
                v@.skip(j as int),
                b@,
                cur_first,
                cur_fuel as nat,
            ) {
                None => None::<BoostagramView>,
                Some((env, rest)) => if skip_ws(rest).len() == 0 {
                    Some(env)
                } else {
                    None
                },
            }),
        decreases cur_fuel,
    {
        if cur_fuel == 0 {
            return None;
        }
        let j1 = ws_end(v, j);
        proof {
            if j1 < n {
                assert(v@.skip(j1 as int)[0] == v@[j1 as int]);
            }
        }
        if cur_first && j1 < n && v[j1] == '}' {
            proof {
                assert(v@.skip(j1 as int).skip(1) =~= v@.skip(j1 as int + 1));
            }
            let j7 = ws_end(v, j1 + 1);
            proof {
                assert(skip_ws(v@.skip(j1 as int + 1)).len() == 0 <==> j7 == n);
            }
            if j7 == n {
                return Some(b);
            } else {
                return None;
            }
        }
        if j1 == n || v[j1] != '"' {
            return None;
        }
        proof {
            assert(v@.skip(j1 as int).skip(1) =~= v@.skip(j1 as int + 1));
        }
        match scan_string_body(v, j1 + 1) {
            None => {
                return None;
            },
            Some((k, j2)) => {
                let j3 = ws_end(v, j2);
                proof {
                    if j3 < n {
                        assert(v@.skip(j3 as int)[0] == v@[j3 as int]);
                    }
                }
                if j3 == n || v[j3] != ':' {
                    return None;
                }
                proof {
                    assert(v@.skip(j3 as int).skip(1) =~= v@.skip(j3 as int + 1));
                }
                let j4 = ws_end(v, j3 + 1);
                match scan_value(v, j4, cur_fuel - 1) {
                    None => {
                        return None;
                    },
                    Some((val, j5)) => {
                        let ghost env_before = b@;
                        let ghost val_view = val@;
                        let ok = apply_member_exec(&mut b, &k, val);
                        if !ok {
                            return None;
                        }
                        proof {
                            assert(apply_member(env_before, k@, val_view) == Some(b@));
                        }
                        let j6 = ws_end(v, j5);
                        proof {
                            if j6 < n {
                                assert(v@.skip(j6 as int)[0] == v@[j6 as int]);
                            }
                        }
                        if j6 == n {
                            return None;
                        }
                        if v[j6] == ',' {
                            proof {
                                assert(v@.skip(j6 as int).skip(1) =~= v@.skip(j6 as int + 1));
                            }
                            j = j6 + 1;
                            cur_first = false;
                            cur_fuel = cur_fuel - 1;
                        } else if v[j6] == '}' {
                            proof {
                                assert(v@.skip(j6 as int).skip(1) =~= v@.skip(j6 as int + 1));
                            }
                            let j7 = ws_end(v, j6 + 1);
                            proof {
                                assert(skip_ws(v@.skip(j6 as int + 1)).len() == 0 <==> j7 == n);
                            }
                            if j7 == n {
                                return Some(b);
                            } else {
                                return None;
                            }
                        } else {
                            return None;
                        }
                    },
                }
            },
        }
    }
}

} // verus!
