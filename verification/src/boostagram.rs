use vstd::prelude::*;

pub mod builder;
pub mod codec;
pub mod fields;

verus! {

use vstd::utf8::encode_utf8;
use crate::Error;
use crate::wire::{b64_of, b64_encode, b64_decode, chars_to_string, str_to_chars};
use codec::{spec_decode_json, json_of_envelope, encode_json_chars, scan_envelope};

/// The classifier of the payment a metadata envelope annotates. Any
/// unrecognized wire value decodes to `Unknown` instead of failing.
#[derive(Debug, Clone, Copy, PartialEq, Eq, Structural)]
pub enum Action {
    Stream,
    Boost,
    Lsat,
    Auto,
    Unknown,
}

/// The metadata envelope attached to a value-for-value micropayment: a flat
/// record of independently optional attributes.
#[derive(Debug, Clone)]
pub struct Boostagram {
    pub podcast: Option<String>,
    pub feed_id: Option<usize>,
    pub url: Option<String>,
    pub guid: Option<String>,
    pub episode: Option<String>,
    pub item_id: Option<usize>,
    pub episode_guid: Option<String>,
    pub time: Option<String>,
    pub ts: Option<usize>,
    pub action: Option<Action>,
    pub app_name: Option<String>,
    pub app_version: Option<String>,
    pub boost_link: Option<String>,
    pub message: Option<String>,
    pub name: Option<String>,
    pub sender_name: Option<String>,
    pub sender_id: Option<String>,
    pub signature: Option<String>,
    pub speed: Option<String>,
    pub uuid: Option<String>,
    pub value_msat_total: Option<u64>,
    pub reply_address: Option<String>,
    pub reply_custom_key: Option<usize>,
    pub reply_custom_value: Option<String>,
}

/// The mathematical model of an envelope: each text attribute as a character
/// sequence, each numeric attribute as it stands.
pub struct BoostagramView {
    pub podcast: Option<Seq<char>>,
    pub feed_id: Option<usize>,
    pub url: Option<Seq<char>>,
    pub guid: Option<Seq<char>>,
    pub episode: Option<Seq<char>>,
    pub item_id: Option<usize>,
    pub episode_guid: Option<Seq<char>>,
    pub time: Option<Seq<char>>,
    pub ts: Option<usize>,
    pub action: Option<Action>,
    pub app_name: Option<Seq<char>>,
    pub app_version: Option<Seq<char>>,
    pub boost_link: Option<Seq<char>>,
    pub message: Option<Seq<char>>,
    pub name: Option<Seq<char>>,
    pub sender_name: Option<Seq<char>>,
    pub sender_id: Option<Seq<char>>,
    pub signature: Option<Seq<char>>,
    pub speed: Option<Seq<char>>,
    pub uuid: Option<Seq<char>>,
    pub value_msat_total: Option<u64>,
    pub reply_address: Option<Seq<char>>,
    pub reply_custom_key: Option<usize>,
    pub reply_custom_value: Option<Seq<char>>,
}

impl View for Boostagram {
    type V = BoostagramView;

    open spec fn view(&self) -> BoostagramView {
        BoostagramView {
            podcast: self.podcast.deep_view(),
            feed_id: self.feed_id,
            url: self.url.deep_view(),
            guid: self.guid.deep_view(),
            episode: self.episode.deep_view(),
            item_id: self.item_id,
            episode_guid: self.episode_guid.deep_view(),
            time: self.time.deep_view(),
            ts: self.ts,
            action: self.action,
            app_name: self.app_name.deep_view(),
            app_version: self.app_version.deep_view(),
            boost_link: self.boost_link.deep_view(),
            message: self.message.deep_view(),
            name: self.name.deep_view(),
            sender_name: self.sender_name.deep_view(),
            sender_id: self.sender_id.deep_view(),
            signature: self.signature.deep_view(),
            speed: self.speed.deep_view(),
            uuid: self.uuid.deep_view(),
            value_msat_total: self.value_msat_total,
            reply_address: self.reply_address.deep_view(),
            reply_custom_key: self.reply_custom_key,
            reply_custom_value: self.reply_custom_value.deep_view(),
        }
    }
}

/// The envelope with every attribute absent.
pub open spec fn empty_envelope_view() -> BoostagramView {
    BoostagramView {
        podcast: None,
        feed_id: None,
        url: None,
        guid: None,
        episode: None,
        item_id: None,
        episode_guid: None,
        time: None,
        ts: None,
        action: None,
        app_name: None,
        app_version: None,
        boost_link: None,
        message: None,
        name: None,
        sender_name: None,
        sender_id: None,
        signature: None,
        speed: None,
        uuid: None,
        value_msat_total: None,
        reply_address: None,
        reply_custom_key: None,
        reply_custom_value: None,
    }
}

/// An envelope carries an identity anchor when at least one of the podcast
/// title, feed identifier, URL or feed GUID is present.
pub open spec fn has_anchor(v: BoostagramView) -> bool {
    v.podcast is Some || v.feed_id is Some || v.url is Some || v.guid is Some
}

fn opt_string_eq(a: &Option<String>, b: &Option<String>) -> (r: bool)
    ensures
        r == (a.deep_view() == b.deep_view()),
{
    match (a, b) {
        (Option::None, Option::None) => true,
        (Option::Some(x), Option::Some(y)) => *x == *y,
        _ => false,
    }
}

fn opt_usize_eq(a: &Option<usize>, b: &Option<usize>) -> (r: bool)
    ensures
        r == (*a == *b),
{
    match (a, b) {
        (Option::None, Option::None) => true,
        (Option::Some(x), Option::Some(y)) => *x == *y,
        _ => false,
    }
}

fn opt_u64_eq(a: &Option<u64>, b: &Option<u64>) -> (r: bool)
    ensures
        r == (*a == *b),
{
    match (a, b) {
        (Option::None, Option::None) => true,
        (Option::Some(x), Option::Some(y)) => *x == *y,
        _ => false,
    }
}

fn opt_action_eq(a: &Option<Action>, b: &Option<Action>) -> (r: bool)
    ensures
        r == (*a == *b),
{
    match (a, b) {
        (Option::None, Option::None) => true,
        (Option::Some(x), Option::Some(y)) => *x == *y,
        _ => false,
    }
}

impl PartialEq for Boostagram {
    /// Two envelopes are equal when every attribute matches.
    fn eq(&self, other: &Boostagram) -> (r: bool) {
        let r = opt_string_eq(&self.podcast, &other.podcast) && opt_usize_eq(
            &self.feed_id,
            &other.feed_id,
        ) && opt_string_eq(&self.url, &other.url) && opt_string_eq(&self.guid, &other.guid)
            && opt_string_eq(&self.episode, &other.episode) && opt_usize_eq(
            &self.item_id,
            &other.item_id,
        ) && opt_string_eq(&self.episode_guid, &other.episode_guid) && opt_string_eq(
            &self.time,
            &other.time,
        ) && opt_usize_eq(&self.ts, &other.ts) && opt_action_eq(&self.action, &other.action)
            && opt_string_eq(&self.app_name, &other.app_name) && opt_string_eq(
            &self.app_version,
            &other.app_version,
        ) && opt_string_eq(&self.boost_link, &other.boost_link) && opt_string_eq(
            &self.message,
            &other.message,
        ) && opt_string_eq(&self.name, &other.name) && opt_string_eq(
            &self.sender_name,
            &other.sender_name,
        ) && opt_string_eq(&self.sender_id, &other.sender_id) && opt_string_eq(
            &self.signature,
            &other.signature,
        ) && opt_string_eq(&self.speed, &other.speed) && opt_string_eq(&self.uuid, &other.uuid)
            && opt_u64_eq(&self.value_msat_total, &other.value_msat_total) && opt_string_eq(
            &self.reply_address,
            &other.reply_address,
        ) && opt_usize_eq(&self.reply_custom_key, &other.reply_custom_key) && opt_string_eq(
            &self.reply_custom_value,
            &other.reply_custom_value,
        );
        proof {
            if r {
                assert(self@ =~= other@);
            }
        }
        r
    }
}

impl vstd::std_specs::cmp::PartialEqSpecImpl for Boostagram {
    open spec fn obeys_eq_spec() -> bool {
        true
    }

    open spec fn eq_spec(&self, other: &Boostagram) -> bool {
        self@ == other@
    }
}

/// Parses the structured-text form of an envelope. Succeeds exactly on the
/// inputs `spec_decode_json` accepts: one object, unknown attributes ignored,
/// the lenient item-identifier rule applied, unknown action names kept as
/// `Unknown`.
pub fn from_json(json: &str) -> (r: Result<Boostagram, Error>)
    ensures
        r matches Ok(b) ==> spec_decode_json(json@) == Some(b@),
        r is Err <==> spec_decode_json(json@) is None,
        r matches Err(e) ==> e matches Error::DeserializingError(_),
{
    let v = str_to_chars(json);
    match scan_envelope(&v) {
        Some(b) => Ok(b),
        None => Err(Error::DeserializingError("invalid boostagram json".to_owned())),
    }
}

/// Decodes the compact wire form: the text-safe encoding of the structured
/// text. Fails with `B64DecodeError` when the input is not the canonical
/// text-safe encoding of any string, and with `DeserializingError` when the
/// encoded string is not a well-formed envelope.
pub fn from_b64(b64: &str) -> (r: Result<Boostagram, Error>)
    ensures
        r matches Ok(b) ==> exists|j: Seq<char>|
            b64@ == b64_of(encode_utf8(j)) && spec_decode_json(j) == Some(b@),
        forall|j: Seq<char>|
            b64@ == b64_of(encode_utf8(j)) ==> (r is Ok <==> spec_decode_json(j) is Some),
        forall|j: Seq<char>|
            b64@ == b64_of(encode_utf8(j)) && spec_decode_json(j) is Some ==> (r matches Ok(b)
                && Some(b@) == spec_decode_json(j)),
        !(exists|j: Seq<char>| b64@ == b64_of(encode_utf8(j))) ==> (r matches Err(e)
            && e matches Error::B64DecodeError(_)),
        r matches Err(e) ==> (e matches Error::B64DecodeError(_) || e matches Error::DeserializingError(_)),
{
    match b64_decode(b64) {
        Err(m) => Err(Error::B64DecodeError(m)),
        Ok(json) => from_json(json.as_str()),
    }
}

impl Boostagram {
    /// Serializes the envelope: the structured-text form of its present
    /// attributes, in the compact text-safe encoding. Never fails.
    pub fn to_b64(&self) -> (r: Result<String, Error>)
        ensures
            r is Ok,
            r matches Ok(t) ==> t@ == b64_of(encode_utf8(json_of_envelope(self@))),
    {
        let chars = encode_json_chars(self);
        let json = chars_to_string(&chars);
        Ok(b64_encode(json.as_str()))
    }
}

} // verus!
