//! Explicitly enabled, quota-bounded execution on an OpenAI-compatible cloud provider.

use crate::ident::{
    format_uuid, hyphenated, law_hyphenated_is_injective, lemma_hyphenated, parse_uuid, parsed_uuid,
    Uuid,
};
use crate::text;
use crate::text::{lemma_position_unique, split_once_at};
use crate::web::{
    join_url, lemma_plain_size, parse_url, parsed_url, set_url_path, url_joined, url_with_path,
    UrlParts, UrlView,
};
use vstd::prelude::*;
use vstd::utf8::encode_utf8;

verus! {

/// Built-in provider adapter identifier.
pub const OPENAI_COMPATIBLE_PROVIDER: &'static str = "com.constellation.cloud.openai-compatible";

/// What the owner allows one cloud provider to do.
pub struct CloudAdapterPolicy {
    /// The policy's own identifier, which aliases name.
    pub id: Uuid,
    /// The plugin that talks to the provider.
    pub provider_plugin: String,
    /// Whether the policy may be executed at all.
    pub enabled: bool,
    /// The provider's models that may be asked for.
    pub models: Vec<String>,
    /// The provider's base URL.
    pub endpoint: Option<String>,
    /// The name under which the credential is kept.
    pub credential_reference: String,
    /// The regions in which the provider may work.
    pub regions: Vec<String>,
    /// The price of a million input tokens.
    pub input_cost_per_million_tokens_micros: u64,
    /// The price of a million output tokens.
    pub output_cost_per_million_tokens_micros: u64,
    /// What may be spent in a month.
    pub monthly_cost_limit_micros: u64,
    /// What may be transferred in a month.
    pub monthly_network_limit_bytes: u64,
}

impl Default for CloudAdapterPolicy {
    /// A policy that allows nothing.
    fn default() -> (policy: Self)
        ensures
            policy.id == 0,
            policy.provider_plugin@.len() == 0,
            !policy.enabled,
            policy.models@.len() == 0,
            policy.endpoint is None,
            policy.credential_reference@.len() == 0,
            policy.regions@.len() == 0,
            policy.input_cost_per_million_tokens_micros == 0,
            policy.output_cost_per_million_tokens_micros == 0,
            policy.monthly_cost_limit_micros == 0,
            policy.monthly_network_limit_bytes == 0,
    {
        CloudAdapterPolicy {
            id: 0,
            provider_plugin: String::new(),
            enabled: false,
            models: Vec::new(),
            endpoint: None,
            credential_reference: String::new(),
            regions: Vec::new(),
            input_cost_per_million_tokens_micros: 0,
            output_cost_per_million_tokens_micros: 0,
            monthly_cost_limit_micros: 0,
            monthly_network_limit_bytes: 0,
        }
    }
}

/// Hard reservation calculated before an external request is sent.
#[derive(Clone, Copy)]
pub struct CloudReservation {
    /// Worst-case monthly spend charged to this request.
    pub cost_micros: u64,
    /// Maximum request-plus-response bytes admitted for this request.
    pub network_bytes: u64,
}

/// Why a cloud request is not made.
#[derive(Clone, Copy, Debug, PartialEq, Eq, Structural)]
pub enum CloudError {
    /// The model is not enabled by an executable policy.
    ModelNotEnabled,
    /// The endpoint is no exact credential-free HTTPS URL.
    InexactEndpoint,
    /// The address of the provider's chat interface cannot be built.
    EndpointConstruction,
}

impl CloudError {
    /// What the error says to the operator.
    pub fn message(&self) -> (text: &'static str)
        ensures
            text@ == match *self {
                CloudError::ModelNotEnabled =>
                    "cloud model is not enabled by an executable policy"@,
                CloudError::InexactEndpoint =>
                    "cloud endpoint must be an exact credential-free HTTPS URL"@,
                CloudError::EndpointConstruction => "construct cloud chat endpoint"@,
            },
    {
        match self {
            CloudError::ModelNotEnabled => "cloud model is not enabled by an executable policy",
            CloudError::InexactEndpoint =>
                "cloud endpoint must be an exact credential-free HTTPS URL",
            CloudError::EndpointConstruction => "construct cloud chat endpoint",
        }
    }
}

/// The least of a number and the greatest `u64`.
pub open spec fn saturated(n: int) -> u64 {
    if n > u64::MAX {
        u64::MAX
    } else {
        n as u64
    }
}

// ------------------------------------------------------------------------------------------------
// Aliases

/// The public alias of a provider's model under a policy.
pub open spec fn alias_of(policy_id: Uuid, model: Seq<char>) -> Seq<char> {
    "cloud/"@ + hyphenated(policy_id) + "/"@ + model
}

/// What a public alias names.
pub open spec fn alias_parts(alias: Seq<char>) -> Option<(Uuid, Seq<char>)> {
    if !"cloud/"@.is_prefix_of(alias) {
        None
    } else {
        match split_once_at(alias.skip("cloud/"@.len() as int), '/') {
            Some((policy_id, model)) => if model.len() == 0 || encode_utf8(model).len() > 256 {
                None
            } else {
                match parsed_uuid(policy_id) {
                    Some(id) => Some((id, model)),
                    None => None,
                }
            },
            None => None,
        }
    }
}

/// Parses a public model alias into policy identity and exact provider model.
pub fn parse_model_alias(alias: &str) -> (parsed: Option<(Uuid, &str)>)
    ensures
        match parsed {
            Some((id, model)) => alias_parts(alias@) == Some((id, model@)),
            None => alias_parts(alias@) is None,
        },
        forall|id: Uuid, model: Seq<char>| alias@ == #[trigger] alias_of(id, model) && 0
            < model.len() && encode_utf8(model).len() <= 256 ==> parsed is Some && (parsed->0).0
            == id && (parsed->0).1@ == model,
{
    proof {
        assert forall|id: Uuid, model: Seq<char>| alias@ == #[trigger] alias_of(id, model) implies
            "cloud/"@.is_prefix_of(alias@) && split_once_at(
            alias@.skip("cloud/"@.len() as int),
            '/',
        ) == Some((hyphenated(id), model)) by {
            lemma_alias_splits(id, model);
        }
    }
    let remainder = match text::strip_prefix(alias, "cloud/") {
        Some(remainder) => remainder,
        None => return None,
    };
    let (policy_id, model) = match text::split_once(remainder, '/') {
        Some(pair) => pair,
        None => return None,
    };
    if model.is_empty() || text::byte_len(model) > 256 {
        return None;
    }
    match parse_uuid(policy_id) {
        Some(id) => Some((id, model)),
        None => None,
    }
}

proof fn lemma_alias_splits(id: Uuid, model: Seq<char>)
    ensures
        "cloud/"@.is_prefix_of(alias_of(id, model)),
        split_once_at(alias_of(id, model).skip("cloud/"@.len() as int), '/') == Some(
            (hyphenated(id), model),
        ),
{
    reveal_strlit("cloud/");
    reveal_strlit("/");
    let alias = alias_of(id, model);
    let rest = alias.skip("cloud/"@.len() as int);
    lemma_hyphenated(id);
    assert(rest =~= hyphenated(id) + "/"@ + model);
    assert forall|j: int| 0 <= j < 36 implies rest[j] != '/' by {
        assert(rest[j] == hyphenated(id)[j]);
    }
    assert(rest[36] == '/');
    lemma_position_unique(rest, '/', 36);
    assert(rest.take(36) =~= hyphenated(id));
    assert(rest.skip(37) =~= model);
}

/// Returns a stable public alias that cannot collide with local runtime models.
pub fn model_alias(policy_id: Uuid, model: &str) -> (alias: String)
    ensures
        alias@ == alias_of(policy_id, model@),
{
    let mut alias = text::join3("cloud/", format_uuid(policy_id).as_str(), "/");
    alias.append(model);
    alias
}

/// Two aliases are equal only where policy and model are.
pub proof fn law_aliases_are_distinct(a: Uuid, model_a: Seq<char>, b: Uuid, model_b: Seq<char>)
    requires
        alias_of(a, model_a) == alias_of(b, model_b),
    ensures
        a == b,
        model_a == model_b,
{
    lemma_alias_splits(a, model_a);
    lemma_alias_splits(b, model_b);
    law_hyphenated_is_injective(a, b);
}

// ------------------------------------------------------------------------------------------------
// Policy and reservation

/// Whether a policy may be executed for a model.
pub open spec fn executable(policy: &CloudAdapterPolicy, model: Seq<char>) -> bool {
    &&& policy.enabled
    &&& policy.provider_plugin@ == OPENAI_COMPATIBLE_PROVIDER@
    &&& exists|i: int| 0 <= i < policy.models@.len() && #[trigger] policy.models@[i]@ == model
    &&& policy.endpoint is Some
}

/// Validates that a requested model is explicitly enabled by one executable policy.
pub fn validate_execution_policy(policy: &CloudAdapterPolicy, model: &str) -> (result: Result<
    (),
    CloudError,
>)
    ensures
        result == (if executable(policy, model@) {
            Ok(())
        } else {
            Err::<(), CloudError>(CloudError::ModelNotEnabled)
        }),
{
    let mut listed = false;
    let mut i: usize = 0;
    while i < policy.models.len()
        invariant
            i <= policy.models@.len(),
            listed == exists|j: int| 0 <= j < i && #[trigger] policy.models@[j]@ == model@,
        decreases policy.models@.len() - i,
    {
        if text::same(policy.models[i].as_str(), model) {
            listed = true;
        }
        i += 1;
    }
    if !policy.enabled || !text::same(policy.provider_plugin.as_str(), OPENAI_COMPATIBLE_PROVIDER)
        || !listed || policy.endpoint.is_none() {
        return Err(CloudError::ModelNotEnabled);
    }
    Ok(())
}

/// The price of a number of tokens, rounded up to a whole unit.
pub open spec fn price(tokens: int, rate_per_million: int) -> int {
    saturated(saturated(tokens * rate_per_million) + 999_999) as int / 1_000_000
}

/// The price of `tokens` at a rate per million, rounded up to a whole unit.
pub fn prorated_cost(tokens: u64, rate_per_million: u64) -> (cost: u64)
    ensures
        cost == price(tokens as int, rate_per_million as int),
{
    let product: u64 = match tokens.checked_mul(rate_per_million) {
        Some(product) => product,
        None => u64::MAX,
    };
    product.saturating_add(999_999) / 1_000_000
}

/// The price does not fall where the number of tokens rises.
pub proof fn law_price_is_monotone(fewer: int, more: int, rate: int)
    requires
        0 <= fewer <= more,
        0 <= rate,
    ensures
        price(fewer, rate) <= price(more, rate),
{
    assert(fewer * rate <= more * rate) by (nonlinear_arith)
        requires
            fewer <= more,
            0 <= rate,
    ;
}

/// The reservation for an input of `bytes` bytes and an output of at most `output_tokens` tokens.
pub open spec fn reserved(policy: &CloudAdapterPolicy, bytes: int, output_tokens: int) -> (
    u64,
    u64,
) {
    (
        saturated(
            price(bytes, policy.input_cost_per_million_tokens_micros as int) + price(
                output_tokens,
                policy.output_cost_per_million_tokens_micros as int,
            ),
        ),
        saturated(bytes + 32 * output_tokens + 131_072),
    )
}

/// Calculates conservative cost and network reservations using byte-count input tokens.
pub fn reservation(policy: &CloudAdapterPolicy, input: &str, max_output_tokens: u32) -> (r:
    CloudReservation)
    ensures
        (r.cost_micros, r.network_bytes) == reserved(
            policy,
            encode_utf8(input@).len() as int,
            max_output_tokens as int,
        ),
{
    let input_token_upper_bound: u64 = text::byte_len(input) as u64;
    let output_tokens: u64 = max_output_tokens as u64;
    let input_cost: u64 = prorated_cost(
        input_token_upper_bound,
        policy.input_cost_per_million_tokens_micros,
    );
    let output_cost: u64 = prorated_cost(
        output_tokens,
        policy.output_cost_per_million_tokens_micros,
    );
    let network_bytes: u64 = input_token_upper_bound.saturating_add(
        output_tokens * 32,
    ).saturating_add(128 * 1024);
    CloudReservation { cost_micros: input_cost.saturating_add(output_cost), network_bytes }
}

// ------------------------------------------------------------------------------------------------
// Endpoint

/// Whether a URL is an exact credential-free HTTPS URL.
pub open spec fn exact_https(url: UrlView) -> bool {
    &&& url.scheme == "https"@
    &&& url.host is Some
    &&& url.username.len() == 0
    &&& url.password is None
    &&& !url.has_query
    &&& !url.has_fragment
}

/// The address of the chat interface below a base URL.
pub open spec fn chat_address(base: Seq<char>) -> Result<Seq<char>, CloudError> {
    match parsed_url(base) {
        Some(url) if exact_https(url) => {
            let directory = if url.path.len() > 0 && url.path.last() == '/' {
                Some(base)
            } else {
                url_with_path(base, url.path + "/"@)
            };
            match directory {
                Some(directory) => match url_joined(directory, "chat/completions"@) {
                    Some(address) => Ok(address),
                    None => Err(CloudError::EndpointConstruction),
                },
                None => Err(CloudError::EndpointConstruction),
            }
        },
        _ => Err(CloudError::InexactEndpoint),
    }
}

/// Whether a slash can be put behind a base URL that does not end in one: the `url` crate counts the
/// bytes of a URL in 32 bits.
pub open spec fn endpoint_fits(base: Seq<char>) -> bool {
    match parsed_url(base) {
        Some(url) => exact_https(url) && !(url.path.len() > 0 && url.path.last() == '/')
            ==> encode_utf8(url.text).len() < u32::MAX,
        None => true,
    }
}

/// Whether a slash can be put behind a base URL that does not end in one.
pub fn fits_as_endpoint(base: &str) -> (r: bool)
    ensures
        r == endpoint_fits(base@),
{
    match parse_url(base) {
        Some(url) => !is_exact_https(&url) || is_directory(&url) || text::byte_len(url.text.as_str())
            < 4_294_967_295,
        None => true,
    }
}

/// Whether a URL is an exact credential-free HTTPS URL.
fn is_exact_https(url: &UrlParts) -> (r: bool)
    ensures
        r == exact_https(url@),
{
    text::same(url.scheme.as_str(), "https") && url.host.is_some() && url.username.as_str().is_empty()
        && url.password.is_none() && !url.has_query && !url.has_fragment
}

/// Whether the path of a URL ends in a slash.
fn is_directory(url: &UrlParts) -> (r: bool)
    ensures
        r == (url@.path.len() > 0 && url@.path.last() == '/'),
{
    let ends_in_slash = text::ends_with(url.path.as_str(), "/");
    proof {
        reveal_strlit("/");
        assert(url.path@.len() > 0 ==> url.path@.skip(url.path@.len() - 1) =~= seq![
            url.path@.last(),
        ]);
        if "/"@.is_suffix_of(url.path@) {
            assert(url.path@.last() == "/"@[0]);
        }
        if url.path@.len() > 0 && url.path@.last() == '/' {
            assert(url.path@.subrange(url.path@.len() - 1, url.path@.len() as int) =~= "/"@);
        }
    }
    ends_in_slash
}

/// The address of the provider's chat interface below its base URL.
pub fn chat_endpoint(base: &str) -> (result: Result<String, CloudError>)
    requires
        endpoint_fits(base@),
    ensures
        match result {
            Ok(address) => chat_address(base@) == Ok::<Seq<char>, CloudError>(address@),
            Err(error) => chat_address(base@) == Err::<Seq<char>, CloudError>(error),
        },
{
    let url = match parse_url(base) {
        Some(url) => url,
        None => return Err(CloudError::InexactEndpoint),
    };
    if !is_exact_https(&url) {
        return Err(CloudError::InexactEndpoint);
    }
    let directory = if is_directory(&url) {
        Some(text::owned(base))
    } else {
        let path = text::join2(url.path.as_str(), "/");
        proof {
            reveal_strlit("/");
            assert(path@ =~= url.path@.push('/'));
            lemma_plain_size(url.path@);
        }
        set_url_path(base, path.as_str())
    };
    match directory {
        Some(directory) => match join_url(directory.as_str(), "chat/completions") {
            Some(address) => Ok(address),
            None => Err(CloudError::EndpointConstruction),
        },
        None => Err(CloudError::EndpointConstruction),
    }
}

// ------------------------------------------------------------------------------------------------
// Frames

/// The bytes without each carriage return that stands directly before a line feed.
pub open spec fn without_crlf(bytes: Seq<u8>) -> Seq<u8>
    decreases bytes.len(),
{
    if bytes.len() < 2 {
        bytes
    } else if bytes[0] == 13 && bytes[1] == 10 {
        without_crlf(bytes.skip(1))
    } else {
        seq![bytes[0]] + without_crlf(bytes.skip(1))
    }
}

/// Removes each carriage return that stands directly before a line feed.
pub fn normalize_crlf(buffer: &mut Vec<u8>)
    ensures
        final(buffer)@ == without_crlf(old(buffer)@),
{
    let mut index: usize = 0;
    assert(buffer@.skip(0) == buffer@);
    assert(buffer@.take(0) + without_crlf(buffer@.skip(0)) == without_crlf(old(buffer)@));
    while index < buffer.len() && index + 1 < buffer.len()
        invariant
            index <= buffer@.len(),
            buffer@.take(index as int) + without_crlf(buffer@.skip(index as int)) == without_crlf(
                old(buffer)@,
            ),
        decreases buffer@.len() - index,
    {
        let ghost before = buffer@;
        let ghost rest = before.skip(index as int);
        if buffer[index] == 13 && buffer[index + 1] == 10 {
            buffer.remove(index);
            assert(buffer@.take(index as int) =~= before.take(index as int));
            assert(buffer@.skip(index as int) =~= rest.skip(1));
        } else {
            index += 1;
            assert(before.take(index as int) =~= before.take(index - 1).push(before[index - 1]));
            assert(before.skip(index as int) =~= rest.skip(1));
            assert(before.take(index as int) + without_crlf(rest.skip(1)) =~= before.take(
                index - 1,
            ) + without_crlf(rest));
        }
    }
    assert(buffer@.take(index as int) + buffer@.skip(index as int) =~= buffer@);
}

/// Whether no carriage return stands directly before a line feed.
pub open spec fn crlf_free(bytes: Seq<u8>) -> bool {
    forall|i: int| 0 <= i < bytes.len() - 1 ==> !(#[trigger] bytes[i] == 13 && bytes[i + 1] == 10)
}

/// Bytes in which no carriage return stands directly before a line feed stay as they are.
pub proof fn law_normalizing_keeps_plain_bytes(bytes: Seq<u8>)
    requires
        crlf_free(bytes),
    ensures
        without_crlf(bytes) == bytes,
    decreases bytes.len(),
{
    if bytes.len() >= 2 {
        let rest = bytes.skip(1);
        assert(bytes[0] != 13 || bytes[1] != 10);
        assert forall|i: int| 0 <= i < rest.len() - 1 implies !(#[trigger] rest[i] == 13 && rest[i + 1]
            == 10) by {
            assert(rest[i] == bytes[i + 1] && rest[i + 1] == bytes[i + 2]);
        }
        law_normalizing_keeps_plain_bytes(rest);
        assert(seq![bytes[0]] + rest =~= bytes);
    }
}

/// Whether a line feed follows the carriage return that some bytes end with.
pub open spec fn meet(x: Seq<u8>, y: Seq<u8>) -> bool {
    x.len() > 0 && x.last() == 13 && y.len() > 0 && y[0] == 10
}

/// Bytes in two parts are normalized each by itself, but for a carriage return at the end of the first
/// part that a line feed follows in the second.
pub proof fn lemma_normalized_sum(x: Seq<u8>, y: Seq<u8>)
    ensures
        without_crlf(x).len() > 0 <==> x.len() > 0,
        x.len() > 0 ==> without_crlf(x).last() == x.last(),
        without_crlf(x + y) == (if meet(x, y) {
            without_crlf(x).drop_last() + without_crlf(y)
        } else {
            without_crlf(x) + without_crlf(y)
        }),
    decreases x.len(),
{
    if x.len() == 0 {
        assert(x + y =~= y);
        assert(without_crlf(x) + without_crlf(y) =~= without_crlf(y));
    } else {
        let rest = x.skip(1);
        lemma_normalized_sum(rest, y);
        assert((x + y).skip(1) =~= rest + y);
        if x.len() == 1 {
            assert(rest + y =~= y);
            assert(without_crlf(x) =~= x);
            assert(x =~= seq![x[0]]);
            if y.len() == 0 {
                assert(x + y =~= x);
                assert(without_crlf(x) + without_crlf(y) =~= x);
            } else {
                assert((x + y)[0] == x[0] && (x + y)[1] == y[0]);
                assert(x.drop_last() + without_crlf(y) =~= without_crlf(y));
            }
        } else {
            assert((x + y)[0] == x[0] && (x + y)[1] == x[1]);
            assert(rest.last() == x.last());
            let n = without_crlf(rest);
            if !(x[0] == 13 && x[1] == 10) {
                let first = seq![x[0]];
                assert((first + n).last() == n.last());
                assert((first + n).drop_last() =~= first + n.drop_last());
                assert(first + (n.drop_last() + without_crlf(y)) =~= (first + n.drop_last())
                    + without_crlf(y));
                assert(first + (n + without_crlf(y)) =~= (first + n) + without_crlf(y));
            }
        }
    }
}

/// Where the first frame ends: the place of the first two line feeds in a row.
pub open spec fn frame_end(buffer: Seq<u8>) -> Option<int>
    decreases buffer.len(),
{
    if buffer.len() < 2 {
        None
    } else if buffer[0] == 10 && buffer[1] == 10 {
        Some(0)
    } else {
        match frame_end(buffer.skip(1)) {
            Some(i) => Some(i + 1),
            None => None,
        }
    }
}

pub proof fn lemma_frame_end(buffer: Seq<u8>)
    ensures
        match frame_end(buffer) {
            Some(i) => {
                &&& 0 <= i <= buffer.len() - 2
                &&& buffer[i] == 10 && buffer[i + 1] == 10
                &&& forall|j: int| 0 <= j < i ==> !(#[trigger] buffer[j] == 10 && buffer[j + 1] == 10)
            },
            None => forall|j: int|
                0 <= j < buffer.len() - 1 ==> !(#[trigger] buffer[j] == 10 && buffer[j + 1] == 10),
        },
    decreases buffer.len(),
{
    if buffer.len() >= 2 && !(buffer[0] == 10 && buffer[1] == 10) {
        let rest = buffer.skip(1);
        lemma_frame_end(rest);
        let bound = match frame_end(buffer) {
            Some(i) => i,
            None => buffer.len() - 1,
        };
        assert forall|j: int| 0 <= j < bound implies !(#[trigger] buffer[j] == 10 && buffer[j + 1]
            == 10) by {
            if j > 0 {
                assert(rest[j - 1] == buffer[j] && rest[j] == buffer[j + 1]);
            }
        }
    }
}

/// Finds where the first frame ends.
pub fn find_frame_boundary(buffer: &[u8]) -> (boundary: Option<usize>)
    ensures
        match boundary {
            Some(i) => frame_end(buffer@) == Some(i as int),
            None => frame_end(buffer@) is None,
        },
{
    proof {
        lemma_frame_end(buffer@);
    }
    let mut index: usize = 0;
    while index < buffer.len() && index + 1 < buffer.len()
        invariant
            index <= buffer@.len(),
            forall|j: int| 0 <= j < index ==> !(#[trigger] buffer@[j] == 10 && buffer@[j + 1] == 10),
        decreases buffer@.len() - index,
    {
        if buffer[index] == 10 && buffer[index + 1] == 10 {
            proof {
                lemma_frame_end(buffer@);
            }
            return Some(index);
        }
        index += 1;
    }
    None
}

// ------------------------------------------------------------------------------------------------
// Laws

/// The price of tokens is what they cost at the rate, rounded up: it covers them, by less than one unit
/// too much.
pub proof fn law_a_price_covers_its_tokens(tokens: int, rate: int)
    requires
        0 <= tokens,
        0 <= rate,
        tokens * rate <= u64::MAX - 999_999,
    ensures
        tokens * rate <= price(tokens, rate) * 1_000_000 < tokens * rate + 1_000_000,
        price(0, rate) == 0,
        price(tokens, 0) == 0,
{
    assert(tokens * rate >= 0) by (nonlinear_arith)
        requires
            0 <= tokens,
            0 <= rate,
    ;
    assert(0 * rate == 0 && tokens * 0 == 0) by (nonlinear_arith);
}

/// What is reserved for a request is never less than what the request can come to: no input of so many
/// bytes has more tokens, and no answer within its bound. The network reservation covers the request, 32
/// bytes for each token of the answer, and 128 KiB more.
pub proof fn law_a_reservation_covers_the_worst(
    policy: CloudAdapterPolicy,
    bytes: int,
    output_tokens: int,
    input_counted: int,
    output_counted: int,
)
    requires
        0 <= input_counted <= bytes,
        0 <= output_counted <= output_tokens,
    ensures
        saturated(
            price(input_counted, policy.input_cost_per_million_tokens_micros as int) + price(
                output_counted,
                policy.output_cost_per_million_tokens_micros as int,
            ),
        ) <= reserved(&policy, bytes, output_tokens).0,
        bytes + 32 * output_counted + 131_072 <= u64::MAX ==> reserved(
            &policy,
            bytes,
            output_tokens,
        ).1 >= bytes + 32 * output_counted + 131_072,
        bytes + 32 * output_tokens + 131_072 <= u64::MAX ==> reserved(
            &policy,
            bytes,
            output_tokens,
        ).1 - reserved(&policy, 0, 0).1 == bytes + 32 * output_tokens,
{
    law_price_is_monotone(
        input_counted,
        bytes,
        policy.input_cost_per_million_tokens_micros as int,
    );
    law_price_is_monotone(
        output_counted,
        output_tokens,
        policy.output_cost_per_million_tokens_micros as int,
    );
}

/// Nothing is sent but over HTTPS, to a named host, and without credentials, query or fragment in the
/// address; a base address that ends in a slash is extended as it is.
pub proof fn law_only_exact_addresses_are_used(base: Seq<char>)
    ensures
        chat_address(base) is Ok ==> {
            &&& parsed_url(base) matches Some(url)
            &&& url.scheme == "https"@ && url.host is Some
            &&& url.username.len() == 0 && url.password is None
            &&& !url.has_query && !url.has_fragment
        },
        chat_address(base) is Ok && parsed_url(base)->0.path.len() > 0 && parsed_url(
            base,
        )->0.path.last() == '/' ==> url_joined(base, "chat/completions"@) == Some(
            chat_address(base)->Ok_0,
        ),
{
}

/// A model runs only under a policy that is enabled, is for the built-in provider, names an endpoint and
/// lists that very model; taking the model off the list, or switching the policy off, stops it.
pub proof fn law_only_listed_models_run(policy: CloudAdapterPolicy, model: Seq<char>)
    ensures
        executable(&policy, model) <==> {
            &&& policy.enabled && policy.endpoint is Some
            &&& policy.provider_plugin@ == OPENAI_COMPATIBLE_PROVIDER@
            &&& policy.models@.map_values(|name: String| name@).contains(model)
        },
        !policy.enabled || policy.models@.len() == 0 ==> !executable(&policy, model),
{
    let names = policy.models@.map_values(|name: String| name@);
    if executable(&policy, model) {
        let i = choose|i: int| 0 <= i < policy.models@.len() && #[trigger] policy.models@[i]@ == model;
        assert(names[i] == model);
    }
    if names.contains(model) {
        let i = choose|i: int| 0 <= i < names.len() && names[i] == model;
        assert(policy.models@[i]@ == model);
    }
}

/// A carriage return before a line feed goes, and nothing else does: lines that end in both read as lines
/// that end in a line feed.
pub proof fn law_line_ends_become_line_feeds(a: Seq<u8>, b: Seq<u8>)
    requires
        !a.contains(13u8),
    ensures
        without_crlf(a + seq![13u8, 10u8] + b) == a + seq![10u8] + without_crlf(b),
    decreases a.len(),
{
    if a.len() == 0 {
        let s = a + seq![13u8, 10u8] + b;
        assert(s =~= seq![13u8, 10u8] + b);
        let t = s.skip(1);
        assert(t =~= seq![10u8] + b);
        if b.len() == 0 {
            assert(t.len() == 1);
            assert(without_crlf(t) == t);
            assert(a + seq![10u8] + without_crlf(b) =~= t);
        } else {
            assert(t.skip(1) =~= b);
            assert(without_crlf(t) == seq![10u8] + without_crlf(b));
            assert(a + seq![10u8] + without_crlf(b) =~= seq![10u8] + without_crlf(b));
        }
    } else {
        let s = a + seq![13u8, 10u8] + b;
        let rest = a.skip(1);
        assert(!rest.contains(13u8)) by {
            if rest.contains(13u8) {
                let i = choose|i: int| 0 <= i < rest.len() && rest[i] == 13u8;
                assert(a[i + 1] == 13u8);
            }
        }
        law_line_ends_become_line_feeds(rest, b);
        assert(s.skip(1) =~= rest + seq![13u8, 10u8] + b);
        assert(a.contains(a[0]));
        assert(s[0] == a[0]);
        assert(seq![a[0]] + (rest + seq![10u8] + without_crlf(b)) =~= a + seq![10u8] + without_crlf(
            b,
        ));
    }
}

/// An alias is read as its policy and its model, where the model has a name of at most 256 bytes.
pub proof fn law_an_alias_names_a_policy_and_a_model(policy: Seq<char>, id: Uuid, model: Seq<char>)
    requires
        !policy.contains('/'),
        parsed_uuid(policy) == Some(id),
    ensures
        0 < model.len() && encode_utf8(model).len() <= 256 ==> alias_parts(
            "cloud/"@ + policy + "/"@ + model,
        ) == Some((id, model)),
        model.len() == 0 || encode_utf8(model).len() > 256 ==> alias_parts(
            "cloud/"@ + policy + "/"@ + model,
        ) is None,
        !"cloud/"@.is_prefix_of(model) ==> alias_parts(model) is None,
{
    let alias = "cloud/"@ + policy + "/"@ + model;
    let rest = policy + "/"@ + model;
    let n = policy.len() as int;
    reveal_strlit("/");
    assert("cloud/"@.is_prefix_of(alias));
    assert(alias.skip("cloud/"@.len() as int) =~= rest);
    assert forall|j: int| 0 <= j < n implies rest[j] != '/' by {
        assert(policy.contains(policy[j]));
    }
    text::lemma_position_unique(rest, '/', n);
    assert(rest.take(n) =~= policy);
    assert(rest.skip(n + 1) =~= model);
}

} // verus!
