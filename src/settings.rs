use vstd::prelude::*;

use crate::forward::DEFAULT_QUEUE_CAPACITY;

verus! {

/// A setting of the voice service.
#[derive(Clone, Copy, Debug, PartialEq, Eq, Structural)]
pub enum VoiceSetting {
    ModelPath,
    WebhookUrl,
    QueueSize,
}

/// Why the voice service's settings were refused.
#[derive(Clone, Copy, Debug, PartialEq, Eq, Structural)]
pub enum VoiceConfigError {
    /// A required setting is absent.
    Missing(VoiceSetting),
    /// The queue size is not a positive integer.
    NotPositive(VoiceSetting),
}

/// The voice service's validated settings, built once at startup.
#[derive(Debug)]
pub struct VoiceConfig {
    pub model_path: String,
    pub webhook_url: String,
    pub queue_capacity: usize,
}

pub open spec fn is_digit(c: char) -> bool {
    '0' <= c && c <= '9'
}

/// The value of a run of decimal digits.
pub open spec fn digits_value(s: Seq<char>) -> nat
    decreases s.len(),
{
    if s.len() == 0 {
        0
    } else {
        digits_value(s.drop_last()) * 10 + (s.last() as nat - '0' as nat) as nat
    }
}

/// The digits of an unsigned decimal numeral: an optional leading `+` dropped.
pub open spec fn numeral_digits(s: Seq<char>) -> Seq<char> {
    if s.len() > 0 && s[0] == '+' {
        s.drop_first()
    } else {
        s
    }
}

/// What `str::parse::<usize>` accepts: an optional `+`, then one or more
/// ASCII digits whose value fits.
pub open spec fn usize_numeral(s: Seq<char>) -> Option<usize> {
    let d = numeral_digits(s);
    if d.len() > 0 && (forall|i: int| 0 <= i < d.len() ==> is_digit(#[trigger] d[i]))
        && digits_value(d) <= usize::MAX {
        Some(digits_value(d) as usize)
    } else {
        None
    }
}

/// Relies on `str::parse::<usize>`: the value of an unsigned decimal numeral.
#[verifier::external_body]
fn parse_usize(s: &str) -> (r: Option<usize>)
    ensures
        r == usize_numeral(s@),
{
    s.parse::<usize>().ok()
}

impl VoiceConfig {
    /// Validates the voice service's settings: the model path and webhook URL
    /// are required; the queue size, when given, must be a positive integer,
    /// and is 128 otherwise.
    pub fn from_values(
        model_path: Option<String>,
        webhook_url: Option<String>,
        queue_size: Option<String>,
    ) -> (r: Result<VoiceConfig, VoiceConfigError>)
        ensures
            model_path is None ==> r == Err::<VoiceConfig, VoiceConfigError>(
                VoiceConfigError::Missing(VoiceSetting::ModelPath),
            ),
            model_path is Some && webhook_url is None ==> r == Err::<VoiceConfig, VoiceConfigError>(
                VoiceConfigError::Missing(VoiceSetting::WebhookUrl),
            ),
            model_path is Some && webhook_url is Some ==> match queue_size {
                None => r is Ok && r->Ok_0.queue_capacity == DEFAULT_QUEUE_CAPACITY,
                Some(q) => match usize_numeral(q@) {
                    Some(n) => if n == 0 {
                        r == Err::<VoiceConfig, VoiceConfigError>(
                            VoiceConfigError::NotPositive(VoiceSetting::QueueSize),
                        )
                    } else {
                        r is Ok && r->Ok_0.queue_capacity == n
                    },
                    None => r == Err::<VoiceConfig, VoiceConfigError>(
                        VoiceConfigError::NotPositive(VoiceSetting::QueueSize),
                    ),
                },
            },
            r matches Ok(c) ==> c.queue_capacity >= 1 && model_path == Some(c.model_path)
                && webhook_url == Some(c.webhook_url),
    {
        let model_path = match model_path {
            Some(p) => p,
            None => return Err(VoiceConfigError::Missing(VoiceSetting::ModelPath)),
        };
        let webhook_url = match webhook_url {
            Some(u) => u,
            None => return Err(VoiceConfigError::Missing(VoiceSetting::WebhookUrl)),
        };
        let queue_capacity = match queue_size {
            None => DEFAULT_QUEUE_CAPACITY,
            Some(q) => match parse_usize(q.as_str()) {
                Some(n) => {
                    if n == 0 {
                        return Err(VoiceConfigError::NotPositive(VoiceSetting::QueueSize));
                    }
                    n
                },
                None => return Err(VoiceConfigError::NotPositive(VoiceSetting::QueueSize)),
            },
        };
        Ok(VoiceConfig { model_path, webhook_url, queue_capacity })
    }
}

} // verus!
