use vstd::prelude::*;

use super::{Action, Boostagram, BoostagramView};
use crate::jsontext::value::{JsonVal, JsonValue};
use crate::wire::chars_to_string;

verus! {

pub open spec fn key_podcast() -> Seq<char> {
    "podcast"@
}

pub open spec fn key_feed_id() -> Seq<char> {
    "feedID"@
}

pub open spec fn key_url() -> Seq<char> {
    "url"@
}

pub open spec fn key_guid() -> Seq<char> {
    "guid"@
}

pub open spec fn key_episode() -> Seq<char> {
    "episode"@
}

pub open spec fn key_item_id() -> Seq<char> {
    "itemID"@
}

pub open spec fn key_episode_guid() -> Seq<char> {
    "episode_guid"@
}

pub open spec fn key_time() -> Seq<char> {
    "time"@
}

pub open spec fn key_ts() -> Seq<char> {
    "ts"@
}

pub open spec fn key_action() -> Seq<char> {
    "action"@
}

pub open spec fn key_app_name() -> Seq<char> {
    "app_name"@
}

pub open spec fn key_app_version() -> Seq<char> {
    "app_version"@
}

pub open spec fn key_boost_link() -> Seq<char> {
    "boost_link"@
}

pub open spec fn key_message() -> Seq<char> {
    "message"@
}

pub open spec fn key_name() -> Seq<char> {
    "name"@
}

pub open spec fn key_sender_name() -> Seq<char> {
    "sender_name"@
}

pub open spec fn key_sender_id() -> Seq<char> {
    "sender_id"@
}

pub open spec fn key_signature() -> Seq<char> {
    "signature"@
}

pub open spec fn key_speed() -> Seq<char> {
    "speed"@
}

pub open spec fn key_uuid() -> Seq<char> {
    "uuid"@
}

pub open spec fn key_value_msat_total() -> Seq<char> {
    "value_msat_total"@
}

pub open spec fn key_reply_address() -> Seq<char> {
    "reply_address"@
}

pub open spec fn key_reply_custom_key() -> Seq<char> {
    "reply_custom_key"@
}

pub open spec fn key_reply_custom_value() -> Seq<char> {
    "reply_custom_value"@
}

/// The wire name of an action value. The catch-all variant keeps its own
/// name, so an envelope holding it still encodes.
pub open spec fn action_name(a: Action) -> Seq<char> {
    match a {
        Action::Stream => "stream"@,
        Action::Boost => "boost"@,
        Action::Lsat => "lsat"@,
        Action::Auto => "auto"@,
        Action::Unknown => "Unknown"@,
    }
}

/// The action a wire name stands for: any unrecognized name is `Unknown`,
/// never an error.
pub open spec fn action_of_name(t: Seq<char>) -> Action {
    if t == "stream"@ {
        Action::Stream
    } else if t == "boost"@ {
        Action::Boost
    } else if t == "lsat"@ {
        Action::Lsat
    } else if t == "auto"@ {
        Action::Auto
    } else {
        Action::Unknown
    }
}

/// Whether a parsed key equals a schema key.
pub fn key_is(k: &Vec<char>, lit: &str) -> (r: bool)
    ensures
        r == (k@ == lit@),
{
    let n = lit.unicode_len();
    if k.len() != n {
        proof {
            assert(k@ != lit@) by {
                if k@ == lit@ {
                    assert(k@.len() == lit@.len());
                }
            }
        }
        return false;
    }
    let mut i: usize = 0;
    while i < n
        invariant
            0 <= i <= n,
            n == lit@.len(),
            k@.len() == n,
            forall|m: int| 0 <= m < i ==> k@[m] == lit@[m],
        decreases n - i,
    {
        if k[i] != lit.get_char(i) {
            proof {
                assert(k@ != lit@) by {
                    if k@ == lit@ {
                        assert(k@[i as int] == lit@[i as int]);
                    }
                }
            }
            return false;
        }
        i = i + 1;
    }
    proof {
        assert(k@ =~= lit@);
    }
    true
}

/// Exec mirror of `action_of_name`.
pub fn action_from_chars(t: &Vec<char>) -> (a: Action)
    ensures
        a == action_of_name(t@),
{
    if key_is(t, "stream") {
        Action::Stream
    } else if key_is(t, "boost") {
        Action::Boost
    } else if key_is(t, "lsat") {
        Action::Lsat
    } else if key_is(t, "auto") {
        Action::Auto
    } else {
        Action::Unknown
    }
}

/// What a text attribute becomes: a string sets it, an explicit null leaves it
/// absent, any other shape is a type error.
pub open spec fn text_field_val(val: JsonVal) -> Option<Option<Seq<char>>> {
    match val {
        JsonVal::Str(t) => Some(Some(t)),
        JsonVal::Null => Some(None),
        _ => None,
    }
}

/// What a machine-word attribute becomes: an integer in range sets it, null
/// leaves it absent, anything else is a type error.
pub open spec fn usize_field_val(val: JsonVal) -> Option<Option<usize>> {
    match val {
        JsonVal::UInt(n) => if n <= usize::MAX {
            Some(Some(n as usize))
        } else {
            None
        },
        JsonVal::Null => Some(None),
        _ => None,
    }
}

/// What a 64-bit attribute becomes.
pub open spec fn u64_field_val(val: JsonVal) -> Option<Option<u64>> {
    match val {
        JsonVal::UInt(n) => if n <= u64::MAX {
            Some(Some(n as u64))
        } else {
            None
        },
        JsonVal::Null => Some(None),
        _ => None,
    }
}

/// The lenient item-identifier rule: an integer in range sets the attribute,
/// any other well-formed value silently leaves it absent.
pub open spec fn item_id_field_val(val: JsonVal) -> Option<usize> {
    match val {
        JsonVal::UInt(n) => if n <= usize::MAX {
            Some(n as usize)
        } else {
            None
        },
        _ => None,
    }
}

/// What the action attribute becomes: any string maps to an action, with
/// unrecognized names as `Unknown`; null leaves it absent; any other shape is
/// a type error.
pub open spec fn action_field_val(val: JsonVal) -> Option<Option<Action>> {
    match val {
        JsonVal::Str(t) => Some(Some(action_of_name(t))),
        JsonVal::Null => Some(None),
        _ => None,
    }
}

pub open spec fn apply_podcast(env: BoostagramView, val: JsonVal) -> Option<BoostagramView> {
    match text_field_val(val) {
        Some(x) => Some(BoostagramView { podcast: x, ..env }),
        None => None,
    }
}

pub open spec fn apply_feed_id(env: BoostagramView, val: JsonVal) -> Option<BoostagramView> {
    match usize_field_val(val) {
        Some(x) => Some(BoostagramView { feed_id: x, ..env }),
        None => None,
    }
}

pub open spec fn apply_url(env: BoostagramView, val: JsonVal) -> Option<BoostagramView> {
    match text_field_val(val) {
        Some(x) => Some(BoostagramView { url: x, ..env }),
        None => None,
    }
}

pub open spec fn apply_guid(env: BoostagramView, val: JsonVal) -> Option<BoostagramView> {
    match text_field_val(val) {
        Some(x) => Some(BoostagramView { guid: x, ..env }),
        None => None,
    }
}

pub open spec fn apply_episode(env: BoostagramView, val: JsonVal) -> Option<BoostagramView> {
    match text_field_val(val) {
        Some(x) => Some(BoostagramView { episode: x, ..env }),
        None => None,
    }
}

pub open spec fn apply_item_id(env: BoostagramView, val: JsonVal) -> Option<BoostagramView> {
    Some(BoostagramView { item_id: item_id_field_val(val), ..env })
}

pub open spec fn apply_episode_guid(env: BoostagramView, val: JsonVal) -> Option<BoostagramView> {
    match text_field_val(val) {
        Some(x) => Some(BoostagramView { episode_guid: x, ..env }),
        None => None,
    }
}

pub open spec fn apply_time(env: BoostagramView, val: JsonVal) -> Option<BoostagramView> {
    match text_field_val(val) {
        Some(x) => Some(BoostagramView { time: x, ..env }),
        None => None,
    }
}

pub open spec fn apply_ts(env: BoostagramView, val: JsonVal) -> Option<BoostagramView> {
    match usize_field_val(val) {
        Some(x) => Some(BoostagramView { ts: x, ..env }),
        None => None,
    }
}

pub open spec fn apply_action(env: BoostagramView, val: JsonVal) -> Option<BoostagramView> {
    match action_field_val(val) {
        Some(x) => Some(BoostagramView { action: x, ..env }),
        None => None,
    }
}

pub open spec fn apply_app_name(env: BoostagramView, val: JsonVal) -> Option<BoostagramView> {
    match text_field_val(val) {
        Some(x) => Some(BoostagramView { app_name: x, ..env }),
        None => None,
    }
}

pub open spec fn apply_app_version(env: BoostagramView, val: JsonVal) -> Option<BoostagramView> {
    match text_field_val(val) {
        Some(x) => Some(BoostagramView { app_version: x, ..env }),
        None => None,
    }
}

pub open spec fn apply_boost_link(env: BoostagramView, val: JsonVal) -> Option<BoostagramView> {
    match text_field_val(val) {
        Some(x) => Some(BoostagramView { boost_link: x, ..env }),
        None => None,
    }
}

pub open spec fn apply_message(env: BoostagramView, val: JsonVal) -> Option<BoostagramView> {
    match text_field_val(val) {
        Some(x) => Some(BoostagramView { message: x, ..env }),
        None => None,
    }
}

pub open spec fn apply_name(env: BoostagramView, val: JsonVal) -> Option<BoostagramView> {
    match text_field_val(val) {
        Some(x) => Some(BoostagramView { name: x, ..env }),
        None => None,
    }
}

pub open spec fn apply_sender_name(env: BoostagramView, val: JsonVal) -> Option<BoostagramView> {
    match text_field_val(val) {
        Some(x) => Some(BoostagramView { sender_name: x, ..env }),
        None => None,
    }
}

pub open spec fn apply_sender_id(env: BoostagramView, val: JsonVal) -> Option<BoostagramView> {
    match text_field_val(val) {
        Some(x) => Some(BoostagramView { sender_id: x, ..env }),
        None => None,
    }
}

pub open spec fn apply_signature(env: BoostagramView, val: JsonVal) -> Option<BoostagramView> {
    match text_field_val(val) {
        Some(x) => Some(BoostagramView { signature: x, ..env }),
        None => None,
    }
}

pub open spec fn apply_speed(env: BoostagramView, val: JsonVal) -> Option<BoostagramView> {
    match text_field_val(val) {
        Some(x) => Some(BoostagramView { speed: x, ..env }),
        None => None,
    }
}

pub open spec fn apply_uuid(env: BoostagramView, val: JsonVal) -> Option<BoostagramView> {
    match text_field_val(val) {
        Some(x) => Some(BoostagramView { uuid: x, ..env }),
        None => None,
    }
}

pub open spec fn apply_value_msat_total(env: BoostagramView, val: JsonVal) -> Option<BoostagramView> {
    match u64_field_val(val) {
        Some(x) => Some(BoostagramView { value_msat_total: x, ..env }),
        None => None,
    }
}

pub open spec fn apply_reply_address(env: BoostagramView, val: JsonVal) -> Option<BoostagramView> {
    match text_field_val(val) {
        Some(x) => Some(BoostagramView { reply_address: x, ..env }),
        None => None,
    }
}

pub open spec fn apply_reply_custom_key(env: BoostagramView, val: JsonVal) -> Option<BoostagramView> {
    match usize_field_val(val) {
        Some(x) => Some(BoostagramView { reply_custom_key: x, ..env }),
        None => None,
    }
}

pub open spec fn apply_reply_custom_value(env: BoostagramView, val: JsonVal) -> Option<BoostagramView> {
    match text_field_val(val) {
        Some(x) => Some(BoostagramView { reply_custom_value: x, ..env }),
        None => None,
    }
}

/// Applies one object member to the envelope assembled so far: a known key
/// updates its attribute under the field rules, with a later occurrence
/// overwriting an earlier one; an unknown key is ignored; an ill-shaped value
/// for a known key fails.
pub open spec fn apply_member(env: BoostagramView, k: Seq<char>, val: JsonVal) -> Option<
    BoostagramView,
> {
    if k == key_podcast() {
        apply_podcast(env, val)
    } else if k == key_feed_id() {
        apply_feed_id(env, val)
    } else if k == key_url() {
        apply_url(env, val)
    } else if k == key_guid() {
        apply_guid(env, val)
    } else if k == key_episode() {
        apply_episode(env, val)
    } else if k == key_item_id() {
        apply_item_id(env, val)
    } else if k == key_episode_guid() {
        apply_episode_guid(env, val)
    } else if k == key_time() {
        apply_time(env, val)
    } else if k == key_ts() {
        apply_ts(env, val)
    } else if k == key_action() {
        apply_action(env, val)
    } else if k == key_app_name() {
        apply_app_name(env, val)
    } else if k == key_app_version() {
        apply_app_version(env, val)
    } else if k == key_boost_link() {
        apply_boost_link(env, val)
    } else if k == key_message() {
        apply_message(env, val)
    } else if k == key_name() {
        apply_name(env, val)
    } else if k == key_sender_name() {
        apply_sender_name(env, val)
    } else if k == key_sender_id() {
        apply_sender_id(env, val)
    } else if k == key_signature() {
        apply_signature(env, val)
    } else if k == key_speed() {
        apply_speed(env, val)
    } else if k == key_uuid() {
        apply_uuid(env, val)
    } else if k == key_value_msat_total() {
        apply_value_msat_total(env, val)
    } else if k == key_reply_address() {
        apply_reply_address(env, val)
    } else if k == key_reply_custom_key() {
        apply_reply_custom_key(env, val)
    } else if k == key_reply_custom_value() {
        apply_reply_custom_value(env, val)
    } else {
        Some(env)
    }
}

fn apply_podcast_exec(b: &mut Boostagram, val: JsonValue) -> (ok: bool)
    ensures
        ok == (apply_podcast(old(b)@, val@) is Some),
        apply_podcast(old(b)@, val@) matches Some(env2) ==> final(b)@ == env2,
{
    match val {
        JsonValue::Str(t) => {
            b.podcast = Some(chars_to_string(&t));
            true
        },
        JsonValue::Null => {
            b.podcast = None;
            true
        },
        _ => false,
    }
}

fn apply_feed_id_exec(b: &mut Boostagram, val: JsonValue) -> (ok: bool)
    ensures
        ok == (apply_feed_id(old(b)@, val@) is Some),
        apply_feed_id(old(b)@, val@) matches Some(env2) ==> final(b)@ == env2,
{
    match val {
        JsonValue::UInt(n) => {
            if n <= usize::MAX as u64 {
                b.feed_id = Some(n as usize);
                true
            } else {
                false
            }
        },
        JsonValue::Null => {
            b.feed_id = None;
            true
        },
        _ => false,
    }
}

fn apply_url_exec(b: &mut Boostagram, val: JsonValue) -> (ok: bool)
    ensures
        ok == (apply_url(old(b)@, val@) is Some),
        apply_url(old(b)@, val@) matches Some(env2) ==> final(b)@ == env2,
{
    match val {
        JsonValue::Str(t) => {
            b.url = Some(chars_to_string(&t));
            true
        },
        JsonValue::Null => {
            b.url = None;
            true
        },
        _ => false,
    }
}

fn apply_guid_exec(b: &mut Boostagram, val: JsonValue) -> (ok: bool)
    ensures
        ok == (apply_guid(old(b)@, val@) is Some),
        apply_guid(old(b)@, val@) matches Some(env2) ==> final(b)@ == env2,
{
    match val {
        JsonValue::Str(t) => {
            b.guid = Some(chars_to_string(&t));
            true
        },
        JsonValue::Null => {
            b.guid = None;
            true
        },
        _ => false,
    }
}

fn apply_episode_exec(b: &mut Boostagram, val: JsonValue) -> (ok: bool)
    ensures
        ok == (apply_episode(old(b)@, val@) is Some),
        apply_episode(old(b)@, val@) matches Some(env2) ==> final(b)@ == env2,
{
    match val {
        JsonValue::Str(t) => {
            b.episode = Some(chars_to_string(&t));
            true
        },
        JsonValue::Null => {
            b.episode = None;
            true
        },
        _ => false,
    }
}

fn apply_item_id_exec(b: &mut Boostagram, val: JsonValue) -> (ok: bool)
    ensures
        ok == (apply_item_id(old(b)@, val@) is Some),
        apply_item_id(old(b)@, val@) matches Some(env2) ==> final(b)@ == env2,
{
    match val {
        JsonValue::UInt(n) => {
            if n <= usize::MAX as u64 {
                b.item_id = Some(n as usize);
            } else {
                b.item_id = None;
            }
        },
        _ => {
            b.item_id = None;
        },
    }
    true
}

fn apply_episode_guid_exec(b: &mut Boostagram, val: JsonValue) -> (ok: bool)
    ensures
        ok == (apply_episode_guid(old(b)@, val@) is Some),
        apply_episode_guid(old(b)@, val@) matches Some(env2) ==> final(b)@ == env2,
{
    match val {
        JsonValue::Str(t) => {
            b.episode_guid = Some(chars_to_string(&t));
            true
        },
        JsonValue::Null => {
            b.episode_guid = None;
            true
        },
        _ => false,
    }
}

fn apply_time_exec(b: &mut Boostagram, val: JsonValue) -> (ok: bool)
    ensures
        ok == (apply_time(old(b)@, val@) is Some),
        apply_time(old(b)@, val@) matches Some(env2) ==> final(b)@ == env2,
{
    match val {
        JsonValue::Str(t) => {
            b.time = Some(chars_to_string(&t));
            true
        },
        JsonValue::Null => {
            b.time = None;
            true
        },
        _ => false,
    }
}

fn apply_ts_exec(b: &mut Boostagram, val: JsonValue) -> (ok: bool)
    ensures
        ok == (apply_ts(old(b)@, val@) is Some),
        apply_ts(old(b)@, val@) matches Some(env2) ==> final(b)@ == env2,
{
    match val {
        JsonValue::UInt(n) => {
            if n <= usize::MAX as u64 {
                b.ts = Some(n as usize);
                true
            } else {
                false
            }
        },
        JsonValue::Null => {
            b.ts = None;
            true
        },
        _ => false,
    }
}

fn apply_action_exec(b: &mut Boostagram, val: JsonValue) -> (ok: bool)
    ensures
        ok == (apply_action(old(b)@, val@) is Some),
        apply_action(old(b)@, val@) matches Some(env2) ==> final(b)@ == env2,
{
    match val {
        JsonValue::Str(t) => {
            b.action = Some(action_from_chars(&t));
            true
        },
        JsonValue::Null => {
            b.action = None;
            true
        },
        _ => false,
    }
}

fn apply_app_name_exec(b: &mut Boostagram, val: JsonValue) -> (ok: bool)
    ensures
        ok == (apply_app_name(old(b)@, val@) is Some),
        apply_app_name(old(b)@, val@) matches Some(env2) ==> final(b)@ == env2,
{
    match val {
        JsonValue::Str(t) => {
            b.app_name = Some(chars_to_string(&t));
            true
        },
        JsonValue::Null => {
            b.app_name = None;
            true
        },
        _ => false,
    }
}

fn apply_app_version_exec(b: &mut Boostagram, val: JsonValue) -> (ok: bool)
    ensures
        ok == (apply_app_version(old(b)@, val@) is Some),
        apply_app_version(old(b)@, val@) matches Some(env2) ==> final(b)@ == env2,
{
    match val {
        JsonValue::Str(t) => {
            b.app_version = Some(chars_to_string(&t));
            true
        },
        JsonValue::Null => {
            b.app_version = None;
            true
        },
        _ => false,
    }
}

fn apply_boost_link_exec(b: &mut Boostagram, val: JsonValue) -> (ok: bool)
    ensures
        ok == (apply_boost_link(old(b)@, val@) is Some),
        apply_boost_link(old(b)@, val@) matches Some(env2) ==> final(b)@ == env2,
{
    match val {
        JsonValue::Str(t) => {
            b.boost_link = Some(chars_to_string(&t));
            true
        },
        JsonValue::Null => {
            b.boost_link = None;
            true
        },
        _ => false,
    }
}

fn apply_message_exec(b: &mut Boostagram, val: JsonValue) -> (ok: bool)
    ensures
        ok == (apply_message(old(b)@, val@) is Some),
        apply_message(old(b)@, val@) matches Some(env2) ==> final(b)@ == env2,
{
    match val {
        JsonValue::Str(t) => {
            b.message = Some(chars_to_string(&t));
            true
        },
        JsonValue::Null => {
            b.message = None;
            true
        },
        _ => false,
    }
}

fn apply_name_exec(b: &mut Boostagram, val: JsonValue) -> (ok: bool)
    ensures
        ok == (apply_name(old(b)@, val@) is Some),
        apply_name(old(b)@, val@) matches Some(env2) ==> final(b)@ == env2,
{
    match val {
        JsonValue::Str(t) => {
            b.name = Some(chars_to_string(&t));
            true
        },
        JsonValue::Null => {
            b.name = None;
            true
        },
        _ => false,
    }
}

fn apply_sender_name_exec(b: &mut Boostagram, val: JsonValue) -> (ok: bool)
    ensures
        ok == (apply_sender_name(old(b)@, val@) is Some),
        apply_sender_name(old(b)@, val@) matches Some(env2) ==> final(b)@ == env2,
{
    match val {
        JsonValue::Str(t) => {
            b.sender_name = Some(chars_to_string(&t));
            true
        },
        JsonValue::Null => {
            b.sender_name = None;
            true
        },
        _ => false,
    }
}

fn apply_sender_id_exec(b: &mut Boostagram, val: JsonValue) -> (ok: bool)
    ensures
        ok == (apply_sender_id(old(b)@, val@) is Some),
        apply_sender_id(old(b)@, val@) matches Some(env2) ==> final(b)@ == env2,
{
    match val {
        JsonValue::Str(t) => {
            b.sender_id = Some(chars_to_string(&t));
            true
        },
        JsonValue::Null => {
            b.sender_id = None;
            true
        },
        _ => false,
    }
}

fn apply_signature_exec(b: &mut Boostagram, val: JsonValue) -> (ok: bool)
    ensures
        ok == (apply_signature(old(b)@, val@) is Some),
        apply_signature(old(b)@, val@) matches Some(env2) ==> final(b)@ == env2,
{
    match val {
        JsonValue::Str(t) => {
            b.signature = Some(chars_to_string(&t));
            true
        },
        JsonValue::Null => {
            b.signature = None;
            true
        },
        _ => false,
    }
}

fn apply_speed_exec(b: &mut Boostagram, val: JsonValue) -> (ok: bool)
    ensures
        ok == (apply_speed(old(b)@, val@) is Some),
        apply_speed(old(b)@, val@) matches Some(env2) ==> final(b)@ == env2,
{
    match val {
        JsonValue::Str(t) => {
            b.speed = Some(chars_to_string(&t));
            true
        },
        JsonValue::Null => {
            b.speed = None;
            true
        },
        _ => false,
    }
}

fn apply_uuid_exec(b: &mut Boostagram, val: JsonValue) -> (ok: bool)
    ensures
        ok == (apply_uuid(old(b)@, val@) is Some),
        apply_uuid(old(b)@, val@) matches Some(env2) ==> final(b)@ == env2,
{
    match val {
        JsonValue::Str(t) => {
            b.uuid = Some(chars_to_string(&t));
            true
        },
        JsonValue::Null => {
            b.uuid = None;
            true
        },
        _ => false,
    }
}

fn apply_value_msat_total_exec(b: &mut Boostagram, val: JsonValue) -> (ok: bool)
    ensures
        ok == (apply_value_msat_total(old(b)@, val@) is Some),
        apply_value_msat_total(old(b)@, val@) matches Some(env2) ==> final(b)@ == env2,
{
    match val {
        JsonValue::UInt(n) => {
            b.value_msat_total = Some(n);
            true
        },
        JsonValue::Null => {
            b.value_msat_total = None;
            true
        },
        _ => false,
    }
}

fn apply_reply_address_exec(b: &mut Boostagram, val: JsonValue) -> (ok: bool)
    ensures
        ok == (apply_reply_address(old(b)@, val@) is Some),
        apply_reply_address(old(b)@, val@) matches Some(env2) ==> final(b)@ == env2,
{
    match val {
        JsonValue::Str(t) => {
            b.reply_address = Some(chars_to_string(&t));
            true
        },
        JsonValue::Null => {
            b.reply_address = None;
            true
        },
        _ => false,
    }
}

fn apply_reply_custom_key_exec(b: &mut Boostagram, val: JsonValue) -> (ok: bool)
    ensures
        ok == (apply_reply_custom_key(old(b)@, val@) is Some),
        apply_reply_custom_key(old(b)@, val@) matches Some(env2) ==> final(b)@ == env2,
{
    match val {
        JsonValue::UInt(n) => {
            if n <= usize::MAX as u64 {
                b.reply_custom_key = Some(n as usize);
                true
            } else {
                false
            }
        },
        JsonValue::Null => {
            b.reply_custom_key = None;
            true
        },
        _ => false,
    }
}

fn apply_reply_custom_value_exec(b: &mut Boostagram, val: JsonValue) -> (ok: bool)
    ensures
        ok == (apply_reply_custom_value(old(b)@, val@) is Some),
        apply_reply_custom_value(old(b)@, val@) matches Some(env2) ==> final(b)@ == env2,
{
    match val {
        JsonValue::Str(t) => {
            b.reply_custom_value = Some(chars_to_string(&t));
            true
        },
        JsonValue::Null => {
            b.reply_custom_value = None;
            true
        },
        _ => false,
    }
}

/// Applies one member to the envelope being assembled, mirroring
/// `apply_member`.
#[verifier::rlimit(60)]
pub(crate) fn apply_member_exec(b: &mut Boostagram, k: &Vec<char>, val: JsonValue) -> (ok: bool)
    ensures
        ok == (apply_member(old(b)@, k@, val@) is Some),
        apply_member(old(b)@, k@, val@) matches Some(env2) ==> final(b)@ == env2,
{
    if key_is(k, "podcast") {
        apply_podcast_exec(b, val)
    } else if key_is(k, "feedID") {
        apply_feed_id_exec(b, val)
    } else if key_is(k, "url") {
        apply_url_exec(b, val)
    } else if key_is(k, "guid") {
        apply_guid_exec(b, val)
    } else if key_is(k, "episode") {
        apply_episode_exec(b, val)
    } else if key_is(k, "itemID") {
        apply_item_id_exec(b, val)
    } else if key_is(k, "episode_guid") {
        apply_episode_guid_exec(b, val)
    } else if key_is(k, "time") {
        apply_time_exec(b, val)
    } else if key_is(k, "ts") {
        apply_ts_exec(b, val)
    } else if key_is(k, "action") {
        apply_action_exec(b, val)
    } else if key_is(k, "app_name") {
        apply_app_name_exec(b, val)
    } else if key_is(k, "app_version") {
        apply_app_version_exec(b, val)
    } else if key_is(k, "boost_link") {
        apply_boost_link_exec(b, val)
    } else if key_is(k, "message") {
        apply_message_exec(b, val)
    } else if key_is(k, "name") {
        apply_name_exec(b, val)
    } else if key_is(k, "sender_name") {
        apply_sender_name_exec(b, val)
    } else if key_is(k, "sender_id") {
        apply_sender_id_exec(b, val)
    } else if key_is(k, "signature") {
        apply_signature_exec(b, val)
    } else if key_is(k, "speed") {
        apply_speed_exec(b, val)
    } else if key_is(k, "uuid") {
        apply_uuid_exec(b, val)
    } else if key_is(k, "value_msat_total") {
        apply_value_msat_total_exec(b, val)
    } else if key_is(k, "reply_address") {
        apply_reply_address_exec(b, val)
    } else if key_is(k, "reply_custom_key") {
        apply_reply_custom_key_exec(b, val)
    } else if key_is(k, "reply_custom_value") {
        apply_reply_custom_value_exec(b, val)
    } else {
        true
    }
}

} // verus!
