//! What each command of the controller computes between reading its input and
//! sending or printing its output.

use crate::common::LuciaError;
use crate::config::Config;
use crate::discovery::BridgeAddress;
use crate::pairing::Credential;
use crate::philips_hue::{
    ApiClient, GroupResponseItem, LightResponseItem, Method, Request, RequestView,
    StateChangeRequest,
};
use crate::text::{decimal, flag_text, push_decimal, push_flag, views};
use crate::units::{
    checked_scale_to_device, checked_to_mired, spec_scale_to_device, spec_to_mired,
    MIN_TEMPERATURE,
};
use vstd::prelude::*;
use vstd::string::*;

verus! {

/// The scale of a brightness given in hundredths of a percent.
pub const FULL_BRIGHTNESS: u32 = 10_000;

/// The text that `Debug` writes for a list of strings.
pub uninterp spec fn debug_list(items: Seq<Seq<char>>) -> Seq<char>;

/// `format!` with `{:?}` on a vector of strings, that is their `Debug`. The
/// result depends on the strings alone; the contract gives it its name.
#[verifier::external_body]
fn debug_strings(items: &Vec<String>) -> (text: String)
    ensures
        text@ == debug_list(views(items@)),
{
    format!("{:?}", items)
}

/// The line that describes a light.
pub open spec fn spec_describe_light(id: Seq<char>, light: LightResponseItem) -> Seq<char> {
    id + ": "@ + light.name@ + " (type="@ + light.type_@ + ", on="@ + flag_text(light.state.on)
        + ", bri="@ + decimal(light.state.bri as nat) + ")"@
}

/// The line that describes a group.
pub open spec fn spec_describe_group(id: Seq<char>, group: GroupResponseItem) -> Seq<char> {
    id + ": "@ + group.name@ + " (type="@ + group.type_@ + ", on="@ + flag_text(group.action.on)
        + ", bri="@ + decimal(group.action.bri as nat) + ", lights="@ + debug_list(
        views(group.lights@),
    ) + ")"@
}

/// Writes the line that describes a light: id, name, type, whether it is on
/// and how bright.
pub fn describe_light(id: &str, light: &LightResponseItem) -> (line: String)
    ensures
        line@ == spec_describe_light(id@, *light),
{
    let mut line = id.to_owned();
    line.append(": ");
    line.append(light.name.as_str());
    line.append(" (type=");
    line.append(light.type_.as_str());
    line.append(", on=");
    push_flag(&mut line, light.state.on);
    line.append(", bri=");
    push_decimal(&mut line, light.state.bri as u64);
    line.append(")");
    assert(line@ =~= spec_describe_light(id@, *light));
    line
}

/// Writes the line that describes a group: id, name, type, whether it is on,
/// how bright, and its lights.
pub fn describe_group(id: &str, group: &GroupResponseItem) -> (line: String)
    ensures
        line@ == spec_describe_group(id@, *group),
{
    let mut line = id.to_owned();
    line.append(": ");
    line.append(group.name.as_str());
    line.append(" (type=");
    line.append(group.type_.as_str());
    line.append(", on=");
    push_flag(&mut line, group.action.on);
    line.append(", bri=");
    push_decimal(&mut line, group.action.bri as u64);
    line.append(", lights=");
    let lights = debug_strings(&group.lights);
    line.append(lights.as_str());
    line.append(")");
    assert(line@ =~= spec_describe_group(id@, *group));
    line
}

/// The client for the bridge of a configuration, given the address that its
/// stored text was read as, if it could be read.
pub fn api_client(config: &Config, address: Option<BridgeAddress>) -> (client: Result<
    ApiClient,
    LuciaError,
>)
    ensures
        config.bridge_ip is None ==> client == Err::<ApiClient, LuciaError>(
            LuciaError::MissingConfiguration,
        ),
        config.bridge_ip is Some && address is None ==> client == Err::<ApiClient, LuciaError>(
            LuciaError::AddrParseError,
        ),
        config.bridge_ip is Some && address is Some ==> (client matches Ok(made)
            && made.spec_base_url() == "http://"@ + address.unwrap().spec_host()),
{
    if config.bridge_ip.is_none() {
        return Err(LuciaError::MissingConfiguration);
    }
    match address {
        Some(found) => Ok(ApiClient::new(found)),
        None => Err(LuciaError::AddrParseError),
    }
}

/// The configuration once the bridge at `address` has issued `credential`.
pub fn configure(config: Config, address: String, credential: Credential) -> (paired: Config)
    ensures
        paired == (Config {
            app_name: config.app_name,
            user_name: Some(credential.username),
            client_key: credential.client_key,
            bridge_ip: Some(address),
        }),
{
    Config {
        app_name: config.app_name,
        user_name: Some(credential.username),
        client_key: credential.client_key,
        bridge_ip: Some(address),
    }
}

/// The update that the user's units amount to: a brightness in hundredths of
/// a percent becomes a device level, a colour temperature in kelvin a mired
/// value.
pub open spec fn spec_state_change(
    brightness: Option<u32>,
    kelvin: Option<u16>,
    on: Option<bool>,
) -> Result<StateChangeRequest, LuciaError> {
    if (brightness matches Some(value) && value > FULL_BRIGHTNESS) || (kelvin matches Some(value)
        && value < MIN_TEMPERATURE) {
        Err(LuciaError::ValueOutOfRange)
    } else {
        Ok(
            StateChangeRequest {
                brightness: match brightness {
                    Some(value) => Some(
                        spec_scale_to_device(value as int, FULL_BRIGHTNESS as int) as u8,
                    ),
                    None => None,
                },
                color_mired: match kelvin {
                    Some(value) => Some(spec_to_mired(value as int) as u16),
                    None => None,
                },
                on,
            },
        )
    }
}

/// Converts the user's units, or fails where the brightness is over a hundred
/// percent or the colour temperature too low to encode.
pub fn state_change(brightness: Option<u32>, kelvin: Option<u16>, on: Option<bool>) -> (update:
    Result<StateChangeRequest, LuciaError>)
    ensures
        update == spec_state_change(brightness, kelvin, on),
{
    let level = match brightness {
        Some(value) => match checked_scale_to_device(value, FULL_BRIGHTNESS) {
            Ok(level) => Some(level),
            Err(error) => {
                return Err(error);
            },
        },
        None => None,
    };
    let mired = match kelvin {
        Some(value) => match checked_to_mired(value) {
            Ok(mired) => Some(mired),
            Err(error) => {
                return Err(error);
            },
        },
        None => None,
    };
    Ok(StateChangeRequest { brightness: level, color_mired: mired, on })
}

/// The request that applies `update` to the light `id`.
pub open spec fn light_request(
    client: ApiClient,
    api_key: Seq<char>,
    id: Seq<char>,
    update: StateChangeRequest,
) -> RequestView {
    RequestView {
        method: Method::Put,
        url: client.spec_base_url() + "/api/"@ + api_key + "/lights/"@ + id + "/state"@,
        body: Some(update.spec_body()),
    }
}

/// The request that applies `update` to the group `id`.
pub open spec fn group_request(
    client: ApiClient,
    api_key: Seq<char>,
    id: Seq<char>,
    update: StateChangeRequest,
) -> RequestView {
    RequestView {
        method: Method::Put,
        url: client.spec_base_url() + "/api/"@ + api_key + "/groups/"@ + id + "/action"@,
        body: Some(update.spec_body()),
    }
}

/// The requests that apply one update to lights and groups: one for each
/// light in the order given, then one for each group in the order given.
pub fn set_lights(
    client: &ApiClient,
    api_key: &str,
    ids: &Vec<String>,
    group_ids: &Vec<String>,
    update: &StateChangeRequest,
) -> (requests: Vec<Request>)
    ensures
        requests@.len() == ids@.len() + group_ids@.len(),
        forall|i: int|
            0 <= i < ids@.len() ==> (#[trigger] requests@[i])@ == light_request(
                *client,
                api_key@,
                ids@[i]@,
                *update,
            ),
        forall|i: int|
            0 <= i < group_ids@.len() ==> (#[trigger] requests@[ids@.len() + i])@ == group_request(
                *client,
                api_key@,
                group_ids@[i]@,
                *update,
            ),
{
    let mut requests: Vec<Request> = Vec::new();
    let mut i: usize = 0;
    while i < ids.len()
        invariant
            i <= ids@.len(),
            requests@.len() == i,
            forall|k: int|
                0 <= k < i ==> (#[trigger] requests@[k])@ == light_request(
                    *client,
                    api_key@,
                    ids@[k]@,
                    *update,
                ),
        decreases ids@.len() - i,
    {
        requests.push(
            client.set_light_state(
                api_key,
                ids[i].as_str(),
                update.brightness,
                update.color_mired,
                update.on,
            ),
        );
        i += 1;
    }
    let mut j: usize = 0;
    while j < group_ids.len()
        invariant
            j <= group_ids@.len(),
            requests@.len() == ids@.len() + j,
            forall|k: int|
                0 <= k < ids@.len() ==> (#[trigger] requests@[k])@ == light_request(
                    *client,
                    api_key@,
                    ids@[k]@,
                    *update,
                ),
            forall|k: int|
                0 <= k < j ==> (#[trigger] requests@[ids@.len() + k])@ == group_request(
                    *client,
                    api_key@,
                    group_ids@[k]@,
                    *update,
                ),
        decreases group_ids@.len() - j,
    {
        requests.push(
            client.set_group_state(
                api_key,
                group_ids[j].as_str(),
                update.brightness,
                update.color_mired,
                update.on,
            ),
        );
        j += 1;
    }
    requests
}

/// The first failure among the results, each target having been tried.
pub open spec fn spec_first_failure(results: Seq<Result<(), LuciaError>>) -> Result<(), LuciaError>
    decreases results.len(),
{
    if results.len() == 0 {
        Ok(())
    } else if results[0] is Err {
        results[0]
    } else {
        spec_first_failure(results.drop_first())
    }
}

/// What a batch of updates comes to once every target has been tried: the
/// first failure, or success where there was none.
pub fn first_failure(results: &Vec<Result<(), LuciaError>>) -> (outcome: Result<(), LuciaError>)
    ensures
        outcome == spec_first_failure(results@),
{
    let mut i: usize = 0;
    assert(results@.skip(0) =~= results@);
    while i < results.len()
        invariant
            i <= results@.len(),
            spec_first_failure(results@) == spec_first_failure(results@.skip(i as int)),
        decreases results@.len() - i,
    {
        proof {
            assert(results@.skip(i as int)[0] == results@[i as int]);
            assert(results@.skip(i as int).drop_first() =~= results@.skip(i + 1));
        }
        if let Err(error) = results[i] {
            return Err(error);
        }
        i += 1;
    }
    Ok(())
}

} // verus!
