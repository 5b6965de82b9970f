use vstd::prelude::*;

use super::{Action, Boostagram, BoostagramView, empty_envelope_view, has_anchor};
use crate::Error;

verus! {

/// A fluent, validated constructor for envelopes: attributes may be set in any
/// order and overwrite freely; `build` enforces the anchor invariant.
pub struct BoostagramBuilder {
    boostagram: Boostagram,
}

impl View for BoostagramBuilder {
    type V = BoostagramView;

    closed spec fn view(&self) -> BoostagramView {
        self.boostagram@
    }
}

impl BoostagramBuilder {
    /// Validates the anchor invariant: the envelope is handed out exactly when
    /// at least one of the podcast title, feed identifier, URL or feed GUID
    /// was set; otherwise building fails.
    pub fn build(self) -> (r: Result<Boostagram, Error>)
        ensures
            r is Ok <==> has_anchor(self@),
            r matches Ok(b) ==> b@ == self@,
            r matches Err(e) ==> e matches Error::BuildingError(_),
    {
        let boost = self.boostagram;

        if boost.podcast.is_none() && boost.feed_id.is_none() && boost.url.is_none()
            && boost.guid.is_none() {
            return Err(Error::BuildingError(
                "either podcast, feed_id, url or guid must be set according to spec".to_owned(),
            ));
        }

        Ok(boost)
    }

    /// A builder with every attribute absent.
    pub fn new() -> (r: BoostagramBuilder)
        ensures
            r@ == empty_envelope_view(),
    {
        BoostagramBuilder {
            boostagram: Boostagram {
                podcast: None,
                feed_id: None,
                url: None,
                guid: None,
                episode: None,
                item_id: None,
                episode_guid: None,
                time: None,
                ts: None,
                action: None,
                app_name: None,
                app_version: None,
                boost_link: None,
                message: None,
                name: None,
                sender_name: None,
                sender_id: None,
                signature: None,
                speed: None,
                uuid: None,
                value_msat_total: None,
                reply_address: None,
                reply_custom_key: None,
                reply_custom_value: None,
            },
        }
    }

    pub fn podcast(self, podcast: String) -> (r: Self)
        ensures
            r@ == (BoostagramView { podcast: Some(podcast@), ..self@ }),
    {
        BoostagramBuilder {
            boostagram: Boostagram { podcast: Some(podcast), ..self.boostagram },
        }
    }

    pub fn podcast_opt(self, podcast: Option<String>) -> (r: Self)
        ensures
            r@ == (BoostagramView { podcast: podcast.deep_view(), ..self@ }),
    {
        BoostagramBuilder {
            boostagram: Boostagram { podcast: podcast, ..self.boostagram },
        }
    }

    pub fn feed_id(self, feed_id: usize) -> (r: Self)
        ensures
            r@ == (BoostagramView { feed_id: Some(feed_id), ..self@ }),
    {
        BoostagramBuilder {
            boostagram: Boostagram { feed_id: Some(feed_id), ..self.boostagram },
        }
    }

    pub fn feed_id_opt(self, feed_id: Option<usize>) -> (r: Self)
        ensures
            r@ == (BoostagramView { feed_id: feed_id, ..self@ }),
    {
        BoostagramBuilder {
            boostagram: Boostagram { feed_id: feed_id, ..self.boostagram },
        }
    }

    pub fn url(self, url: String) -> (r: Self)
        ensures
            r@ == (BoostagramView { url: Some(url@), ..self@ }),
    {
        BoostagramBuilder {
            boostagram: Boostagram { url: Some(url), ..self.boostagram },
        }
    }

    pub fn url_opt(self, url: Option<String>) -> (r: Self)
        ensures
            r@ == (BoostagramView { url: url.deep_view(), ..self@ }),
    {
        BoostagramBuilder {
            boostagram: Boostagram { url: url, ..self.boostagram },
        }
    }

    pub fn guid(self, guid: String) -> (r: Self)
        ensures
            r@ == (BoostagramView { guid: Some(guid@), ..self@ }),
    {
        BoostagramBuilder {
            boostagram: Boostagram { guid: Some(guid), ..self.boostagram },
        }
    }

    pub fn guid_opt(self, guid: Option<String>) -> (r: Self)
        ensures
            r@ == (BoostagramView { guid: guid.deep_view(), ..self@ }),
    {
        BoostagramBuilder {
            boostagram: Boostagram { guid: guid, ..self.boostagram },
        }
    }

    pub fn episode(self, episode: String) -> (r: Self)
        ensures
            r@ == (BoostagramView { episode: Some(episode@), ..self@ }),
    {
        BoostagramBuilder {
            boostagram: Boostagram { episode: Some(episode), ..self.boostagram },
        }
    }

    pub fn episode_opt(self, episode: Option<String>) -> (r: Self)
        ensures
            r@ == (BoostagramView { episode: episode.deep_view(), ..self@ }),
    {
        BoostagramBuilder {
            boostagram: Boostagram { episode: episode, ..self.boostagram },
        }
    }

    pub fn item_id(self, item_id: usize) -> (r: Self)
        ensures
            r@ == (BoostagramView { item_id: Some(item_id), ..self@ }),
    {
        BoostagramBuilder {
            boostagram: Boostagram { item_id: Some(item_id), ..self.boostagram },
        }
    }

    pub fn item_id_opt(self, item_id: Option<usize>) -> (r: Self)
        ensures
            r@ == (BoostagramView { item_id: item_id, ..self@ }),
    {
        BoostagramBuilder {
            boostagram: Boostagram { item_id: item_id, ..self.boostagram },
        }
    }

    pub fn message(self, message: String) -> (r: Self)
        ensures
            r@ == (BoostagramView { message: Some(message@), ..self@ }),
    {
        BoostagramBuilder {
            boostagram: Boostagram { message: Some(message), ..self.boostagram },
        }
    }

    pub fn message_opt(self, message: Option<String>) -> (r: Self)
        ensures
            r@ == (BoostagramView { message: message.deep_view(), ..self@ }),
    {
        BoostagramBuilder {
            boostagram: Boostagram { message: message, ..self.boostagram },
        }
    }

    pub fn name(self, name: String) -> (r: Self)
        ensures
            r@ == (BoostagramView { name: Some(name@), ..self@ }),
    {
        BoostagramBuilder {
            boostagram: Boostagram { name: Some(name), ..self.boostagram },
        }
    }

    pub fn name_opt(self, name: Option<String>) -> (r: Self)
        ensures
            r@ == (BoostagramView { name: name.deep_view(), ..self@ }),
    {
        BoostagramBuilder {
            boostagram: Boostagram { name: name, ..self.boostagram },
        }
    }

    pub fn reply_address(self, reply_address: String) -> (r: Self)
        ensures
            r@ == (BoostagramView { reply_address: Some(reply_address@), ..self@ }),
    {
        BoostagramBuilder {
            boostagram: Boostagram { reply_address: Some(reply_address), ..self.boostagram },
        }
    }

    pub fn reply_address_opt(self, reply_address: Option<String>) -> (r: Self)
        ensures
            r@ == (BoostagramView { reply_address: reply_address.deep_view(), ..self@ }),
    {
        BoostagramBuilder {
            boostagram: Boostagram { reply_address: reply_address, ..self.boostagram },
        }
    }

    pub fn reply_custom_key(self, reply_custom_key: usize) -> (r: Self)
        ensures
            r@ == (BoostagramView { reply_custom_key: Some(reply_custom_key), ..self@ }),
    {
        BoostagramBuilder {
            boostagram: Boostagram { reply_custom_key: Some(reply_custom_key), ..self.boostagram },
        }
    }

    pub fn reply_custom_key_opt(self, reply_custom_key: Option<usize>) -> (r: Self)
        ensures
            r@ == (BoostagramView { reply_custom_key: reply_custom_key, ..self@ }),
    {
        BoostagramBuilder {
            boostagram: Boostagram { reply_custom_key: reply_custom_key, ..self.boostagram },
        }
    }

    pub fn reply_custom_value(self, reply_custom_value: String) -> (r: Self)
        ensures
            r@ == (BoostagramView { reply_custom_value: Some(reply_custom_value@), ..self@ }),
    {
        BoostagramBuilder {
            boostagram: Boostagram { reply_custom_value: Some(reply_custom_value), ..self.boostagram },
        }
    }

    pub fn reply_custom_value_opt(self, reply_custom_value: Option<String>) -> (r: Self)
        ensures
            r@ == (BoostagramView { reply_custom_value: reply_custom_value.deep_view(), ..self@ }),
    {
        BoostagramBuilder {
            boostagram: Boostagram { reply_custom_value: reply_custom_value, ..self.boostagram },
        }
    }

    pub fn sender_name(self, sender_name: String) -> (r: Self)
        ensures
            r@ == (BoostagramView { sender_name: Some(sender_name@), ..self@ }),
    {
        BoostagramBuilder {
            boostagram: Boostagram { sender_name: Some(sender_name), ..self.boostagram },
        }
    }

    pub fn sender_name_opt(self, sender_name: Option<String>) -> (r: Self)
        ensures
            r@ == (BoostagramView { sender_name: sender_name.deep_view(), ..self@ }),
    {
        BoostagramBuilder {
            boostagram: Boostagram { sender_name: sender_name, ..self.boostagram },
        }
    }

    pub fn sender_id(self, sender_id: String) -> (r: Self)
        ensures
            r@ == (BoostagramView { sender_id: Some(sender_id@), ..self@ }),
    {
        BoostagramBuilder {
            boostagram: Boostagram { sender_id: Some(sender_id), ..self.boostagram },
        }
    }

    pub fn sender_id_opt(self, sender_id: Option<String>) -> (r: Self)
        ensures
            r@ == (BoostagramView { sender_id: sender_id.deep_view(), ..self@ }),
    {
        BoostagramBuilder {
            boostagram: Boostagram { sender_id: sender_id, ..self.boostagram },
        }
    }

    pub fn signature(self, signature: String) -> (r: Self)
        ensures
            r@ == (BoostagramView { signature: Some(signature@), ..self@ }),
    {
        BoostagramBuilder {
            boostagram: Boostagram { signature: Some(signature), ..self.boostagram },
        }
    }

    pub fn signature_opt(self, signature: Option<String>) -> (r: Self)
        ensures
            r@ == (BoostagramView { signature: signature.deep_view(), ..self@ }),
    {
        BoostagramBuilder {
            boostagram: Boostagram { signature: signature, ..self.boostagram },
        }
    }

    pub fn speed(self, speed: String) -> (r: Self)
        ensures
            r@ == (BoostagramView { speed: Some(speed@), ..self@ }),
    {
        BoostagramBuilder {
            boostagram: Boostagram { speed: Some(speed), ..self.boostagram },
        }
    }

    pub fn speed_opt(self, speed: Option<String>) -> (r: Self)
        ensures
            r@ == (BoostagramView { speed: speed.deep_view(), ..self@ }),
    {
        BoostagramBuilder {
            boostagram: Boostagram { speed: speed, ..self.boostagram },
        }
    }

    pub fn uuid(self, uuid: String) -> (r: Self)
        ensures
            r@ == (BoostagramView { uuid: Some(uuid@), ..self@ }),
    {
        BoostagramBuilder {
            boostagram: Boostagram { uuid: Some(uuid), ..self.boostagram },
        }
    }

    pub fn uuid_opt(self, uuid: Option<String>) -> (r: Self)
        ensures
            r@ == (BoostagramView { uuid: uuid.deep_view(), ..self@ }),
    {
        BoostagramBuilder {
            boostagram: Boostagram { uuid: uuid, ..self.boostagram },
        }
    }

    pub fn value_msat_total(self, value_msat_total: u64) -> (r: Self)
        ensures
            r@ == (BoostagramView { value_msat_total: Some(value_msat_total), ..self@ }),
    {
        BoostagramBuilder {
            boostagram: Boostagram { value_msat_total: Some(value_msat_total), ..self.boostagram },
        }
    }

    pub fn value_msat_total_opt(self, value_msat_total: Option<u64>) -> (r: Self)
        ensures
            r@ == (BoostagramView { value_msat_total: value_msat_total, ..self@ }),
    {
        BoostagramBuilder {
            boostagram: Boostagram { value_msat_total: value_msat_total, ..self.boostagram },
        }
    }

    pub fn episode_guid(self, episode_guid: String) -> (r: Self)
        ensures
            r@ == (BoostagramView { episode_guid: Some(episode_guid@), ..self@ }),
    {
        BoostagramBuilder {
            boostagram: Boostagram { episode_guid: Some(episode_guid), ..self.boostagram },
        }
    }

    pub fn episode_guid_opt(self, episode_guid: Option<String>) -> (r: Self)
        ensures
            r@ == (BoostagramView { episode_guid: episode_guid.deep_view(), ..self@ }),
    {
        BoostagramBuilder {
            boostagram: Boostagram { episode_guid: episode_guid, ..self.boostagram },
        }
    }

    pub fn time(self, time: String) -> (r: Self)
        ensures
            r@ == (BoostagramView { time: Some(time@), ..self@ }),
    {
        BoostagramBuilder {
            boostagram: Boostagram { time: Some(time), ..self.boostagram },
        }
    }

    pub fn time_opt(self, time: Option<String>) -> (r: Self)
        ensures
            r@ == (BoostagramView { time: time.deep_view(), ..self@ }),
    {
        BoostagramBuilder {
            boostagram: Boostagram { time: time, ..self.boostagram },
        }
    }

    pub fn ts(self, ts: usize) -> (r: Self)
        ensures
            r@ == (BoostagramView { ts: Some(ts), ..self@ }),
    {
        BoostagramBuilder {
            boostagram: Boostagram { ts: Some(ts), ..self.boostagram },
        }
    }

    pub fn ts_opt(self, ts: Option<usize>) -> (r: Self)
        ensures
            r@ == (BoostagramView { ts: ts, ..self@ }),
    {
        BoostagramBuilder {
            boostagram: Boostagram { ts: ts, ..self.boostagram },
        }
    }

    pub fn action(self, action: Action) -> (r: Self)
        ensures
            r@ == (BoostagramView { action: Some(action), ..self@ }),
    {
        BoostagramBuilder {
            boostagram: Boostagram { action: Some(action), ..self.boostagram },
        }
    }

    pub fn action_opt(self, action: Option<Action>) -> (r: Self)
        ensures
            r@ == (BoostagramView { action: action, ..self@ }),
    {
        BoostagramBuilder {
            boostagram: Boostagram { action: action, ..self.boostagram },
        }
    }

    pub fn app_name(self, app_name: String) -> (r: Self)
        ensures
            r@ == (BoostagramView { app_name: Some(app_name@), ..self@ }),
    {
        BoostagramBuilder {
            boostagram: Boostagram { app_name: Some(app_name), ..self.boostagram },
        }
    }

    pub fn app_name_opt(self, app_name: Option<String>) -> (r: Self)
        ensures
            r@ == (BoostagramView { app_name: app_name.deep_view(), ..self@ }),
    {
        BoostagramBuilder {
            boostagram: Boostagram { app_name: app_name, ..self.boostagram },
        }
    }

    pub fn app_version(self, app_version: String) -> (r: Self)
        ensures
            r@ == (BoostagramView { app_version: Some(app_version@), ..self@ }),
    {
        BoostagramBuilder {
            boostagram: Boostagram { app_version: Some(app_version), ..self.boostagram },
        }
    }

    pub fn app_version_opt(self, app_version: Option<String>) -> (r: Self)
        ensures
            r@ == (BoostagramView { app_version: app_version.deep_view(), ..self@ }),
    {
        BoostagramBuilder {
            boostagram: Boostagram { app_version: app_version, ..self.boostagram },
        }
    }

    pub fn boost_link(self, boost_link: String) -> (r: Self)
        ensures
            r@ == (BoostagramView { boost_link: Some(boost_link@), ..self@ }),
    {
        BoostagramBuilder {
            boostagram: Boostagram { boost_link: Some(boost_link), ..self.boostagram },
        }
    }

    pub fn boost_link_opt(self, boost_link: Option<String>) -> (r: Self)
        ensures
            r@ == (BoostagramView { boost_link: boost_link.deep_view(), ..self@ }),
    {
        BoostagramBuilder {
            boostagram: Boostagram { boost_link: boost_link, ..self.boostagram },
        }
    }

}

impl Default for BoostagramBuilder {
    fn default() -> (r: Self)
        ensures
            r@ == empty_envelope_view(),
    {
        Self::new()
    }
}

} // verus!
