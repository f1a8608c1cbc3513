//! The settings kept in the store, and how they are put together from the
//! rows of the settings table.

use crate::text::parsed_u64;
use std::collections::HashSet;
use twilight_model::id::{marker::ChannelMarker, Id};
use vstd::prelude::*;
use vstd::string::*;

verus! {

/// What the services cost, in energy.
#[derive(Debug, Clone, Copy, PartialEq, Eq, Structural)]
pub struct ServiceFee {
    pub custom_role: u64,
    pub nickname: u64,
}

/// The settings.
#[derive(Debug)]
pub struct ConfigInner {
    /// The length of a check-in window, in seconds.
    pub cooldown: u64,
    pub service_fee: ServiceFee,
    /// The channels in which activity is awarded.
    pub zones: HashSet<u64>,
}

/// Why no settings came of the rows.
#[derive(Debug, Clone, Copy, PartialEq, Eq, Structural)]
pub enum ConfigError {
    /// A setting is missing, or its value could not be read.
    Incomplete,
}

impl ConfigError {
    /// The error in words.
    pub fn message(&self) -> (text: String)
        ensures
            text@ == "Config could not be built"@,
    {
        String::from_str("Config could not be built")
    }
}

/// The channels that a list of channel ids in JSON names, as
/// `serde_json::from_str` reads it into a set of ids; `None` where it reads
/// none.
pub uninterp spec fn zones_of_json(value: Seq<char>) -> Option<Set<u64>>;

/// `str::parse::<u64>`: the number that `value` writes in decimal, with or
/// without a plus sign in front.
#[verifier::external_body]
fn parse_u64(value: &str) -> (number: Option<u64>)
    ensures
        number == parsed_u64(value@),
{
    value.parse::<u64>().ok()
}

/// `serde_json::from_str`, reading a set of channel ids.
#[verifier::external_body]
fn parse_zones(value: &str) -> (zones: Option<HashSet<u64>>)
    ensures
        zones is Some <==> zones_of_json(value@) is Some,
        zones matches Some(set) ==> zones_of_json(value@) == Some(set@),
{
    let ids = serde_json::from_str::<HashSet<Id<ChannelMarker>>>(value).ok()?;
    Some(ids.into_iter().map(|id| id.get()).collect())
}

/// The settings read so far. A setting that was not seen, or whose latest
/// value could not be read, is `None`.
#[derive(Debug)]
pub struct ConfigWrapperBuilder {
    pub cooldown: Option<u64>,
    pub custom_role_fee: Option<u64>,
    pub nickname_fee: Option<u64>,
    pub zones: Option<HashSet<u64>>,
}

/// A builder as the contracts see it.
pub struct Draft {
    pub cooldown: Option<u64>,
    pub custom_role_fee: Option<u64>,
    pub nickname_fee: Option<u64>,
    pub zones: Option<Set<u64>>,
}

/// The draft after the row `field`, `value` was read: a row of one of the
/// four settings replaces what was read of that setting before, and any
/// other row changes nothing.
pub open spec fn with_field(draft: Draft, field: Seq<char>, value: Seq<char>) -> Draft {
    if field == "cooldown"@ {
        Draft { cooldown: parsed_u64(value), ..draft }
    } else if field == "custom_role_fee"@ {
        Draft { custom_role_fee: parsed_u64(value), ..draft }
    } else if field == "nickname_fee"@ {
        Draft { nickname_fee: parsed_u64(value), ..draft }
    } else if field == "zones"@ {
        Draft { zones: zones_of_json(value), ..draft }
    } else {
        draft
    }
}

/// The draft after `rows` were read, first to last.
pub open spec fn with_rows(draft: Draft, rows: Seq<(String, String)>) -> Draft
    decreases rows.len(),
{
    if rows.len() == 0 {
        draft
    } else {
        with_field(with_rows(draft, rows.drop_last()), rows.last().0@, rows.last().1@)
    }
}

/// A draft in which nothing was read.
pub open spec fn blank() -> Draft {
    Draft { cooldown: None, custom_role_fee: None, nickname_fee: None, zones: None }
}

/// All four settings were read.
pub open spec fn complete(draft: Draft) -> bool {
    draft.cooldown is Some && draft.custom_role_fee is Some && draft.nickname_fee is Some
        && draft.zones is Some
}

impl View for ConfigWrapperBuilder {
    type V = Draft;

    open spec fn view(&self) -> Draft {
        Draft {
            cooldown: self.cooldown,
            custom_role_fee: self.custom_role_fee,
            nickname_fee: self.nickname_fee,
            zones: match self.zones {
                Some(set) => Some(set@),
                None => None,
            },
        }
    }
}

impl Default for ConfigWrapperBuilder {
    fn default() -> (builder: ConfigWrapperBuilder)
        ensures
            builder@ == blank(),
    {
        ConfigWrapperBuilder { cooldown: None, custom_role_fee: None, nickname_fee: None, zones: None }
    }
}

impl ConfigWrapperBuilder {
    /// Reads one row of the settings table.
    pub fn set_field(&mut self, field: &str, value: &str)
        ensures
            final(self)@ == with_field(old(self)@, field@, value@),
    {
        if field.eq("cooldown") {
            self.cooldown = parse_u64(value);
        } else if field.eq("custom_role_fee") {
            self.custom_role_fee = parse_u64(value);
        } else if field.eq("nickname_fee") {
            self.nickname_fee = parse_u64(value);
        } else if field.eq("zones") {
            self.set_zones(parse_zones(value));
        }
    }

    /// Takes `zones` as what was read of the zones.
    pub fn set_zones(&mut self, zones: Option<HashSet<u64>>)
        ensures
            final(self)@ == (Draft {
                zones: match zones {
                    Some(set) => Some(set@),
                    None => None,
                },
                ..old(self)@
            }),
    {
        self.zones = zones;
    }

    /// The settings, if all four were read.
    pub fn try_build(self) -> (built: Result<ConfigInner, ConfigError>)
        ensures
            built is Ok <==> complete(self@),
            built matches Ok(config) ==> Some(config.cooldown) == self.cooldown && Some(
                config.service_fee.custom_role,
            ) == self.custom_role_fee && Some(config.service_fee.nickname) == self.nickname_fee
                && Some(config.zones@) == self@.zones,
            built matches Err(error) ==> error == ConfigError::Incomplete,
    {
        let cooldown = match self.cooldown {
            Some(cooldown) => cooldown,
            None => return Err(ConfigError::Incomplete),
        };
        let custom_role = match self.custom_role_fee {
            Some(fee) => fee,
            None => return Err(ConfigError::Incomplete),
        };
        let nickname = match self.nickname_fee {
            Some(fee) => fee,
            None => return Err(ConfigError::Incomplete),
        };
        let zones = match self.zones {
            Some(zones) => zones,
            None => return Err(ConfigError::Incomplete),
        };
        Ok(ConfigInner { cooldown, service_fee: ServiceFee { custom_role, nickname }, zones })
    }
}

/// The settings that the rows of the settings table give, each row a name
/// and a value: a later row of a setting overrides an earlier one, and rows
/// of unknown names are passed over.
pub fn config_of_rows(rows: &Vec<(String, String)>) -> (built: Result<ConfigInner, ConfigError>)
    ensures
        built is Ok <==> complete(with_rows(blank(), rows@)),
        built matches Ok(config) ==> {
            let draft = with_rows(blank(), rows@);
            Some(config.cooldown) == draft.cooldown && Some(config.service_fee.custom_role)
                == draft.custom_role_fee && Some(config.service_fee.nickname) == draft.nickname_fee
                && Some(config.zones@) == draft.zones
        },
        built matches Err(error) ==> error == ConfigError::Incomplete,
{
    let mut builder = ConfigWrapperBuilder::default();
    let mut i: usize = 0;
    assert(rows@.take(0) =~= Seq::<(String, String)>::empty());
    while i < rows.len()
        invariant
            0 <= i <= rows.len(),
            builder@ == with_rows(blank(), rows@.take(i as int)),
        decreases rows.len() - i,
    {
        proof {
            assert(rows@.take(i + 1).drop_last() =~= rows@.take(i as int));
        }
        builder.set_field(rows[i].0.as_str(), rows[i].1.as_str());
        i = i + 1;
    }
    assert(rows@.take(i as int) =~= rows@);
    builder.try_build()
}

} // verus!
