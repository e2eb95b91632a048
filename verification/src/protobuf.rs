//! The protobuf wire form of Discord's predefined privacy settings.
use vstd::prelude::*;

verus! {

/// The privacy section of the settings proto.
#[derive(Debug, Clone, Copy, PartialEq, Eq, Structural)]
pub struct PrivacySettings {
    /// Field 1.
    pub allow_dms_from_guild_members: Option<bool>,
    /// Field 2.
    pub contact_sync_enabled: Option<bool>,
}

/// The predefined settings proto.
#[derive(Debug, Clone, Copy, PartialEq, Eq, Structural)]
pub struct PredefinedSettings {
    /// Field 1.
    pub privacy: Option<PrivacySettings>,
}

/// The base-128 varint encoding of `n`.
pub open spec fn varint(n: nat) -> Seq<u8>
    decreases n,
{
    if n < 128 {
        seq![n as u8]
    } else {
        seq![(n % 128 + 128) as u8] + varint(n / 128)
    }
}

/// The key of a field: its number shifted left by three, or'ed with its wire type.
pub open spec fn field_key(number: nat, wire_type: nat) -> Seq<u8> {
    varint(number * 8 + wire_type)
}

/// An optional bool field: absent when unset, else key and 0 or 1.
pub open spec fn bool_field(number: nat, v: Option<bool>) -> Seq<u8> {
    match v {
        None => Seq::empty(),
        Some(b) => field_key(number, 0) + seq![if b { 1u8 } else { 0u8 }],
    }
}

/// The wire form of the privacy settings.
pub open spec fn privacy_bytes(p: PrivacySettings) -> Seq<u8> {
    bool_field(1, p.allow_dms_from_guild_members) + bool_field(2, p.contact_sync_enabled)
}

/// The wire form of the predefined settings: the privacy message as a
/// length-delimited field 1, when set.
pub open spec fn settings_bytes(s: PredefinedSettings) -> Seq<u8> {
    match s.privacy {
        None => Seq::empty(),
        Some(p) => field_key(1, 2) + varint(privacy_bytes(p).len()) + privacy_bytes(p),
    }
}

fn push_bool_field(out: &mut Vec<u8>, key: u8, v: Option<bool>)
    requires
        key == 8 || key == 16,
    ensures
        final(out)@ == old(out)@ + bool_field((key / 8) as nat, v),
{
    proof {
        assert(field_key((key / 8) as nat, 0) == seq![key]);
    }
    match v {
        None => {
            assert(old(out)@ + Seq::<u8>::empty() == old(out)@);
        },
        Some(b) => {
            out.push(key);
            out.push(if b { 1u8 } else { 0u8 });
        },
    }
}

impl PrivacySettings {
    /// The wire form of these settings.
    pub fn encode_to_vec(&self) -> (r: Vec<u8>)
        ensures
            r@ == privacy_bytes(*self),
            r@.len() <= 4,
    {
        let mut out: Vec<u8> = Vec::new();
        push_bool_field(&mut out, 8, self.allow_dms_from_guild_members);
        push_bool_field(&mut out, 16, self.contact_sync_enabled);
        assert(out@ == Seq::<u8>::empty() + bool_field(1, self.allow_dms_from_guild_members)
            + bool_field(2, self.contact_sync_enabled));
        out
    }
}

impl PredefinedSettings {
    /// The wire form of these settings.
    pub fn encode_to_vec(&self) -> (r: Vec<u8>)
        ensures
            r@ == settings_bytes(*self),
    {
        match self.privacy {
            None => Vec::new(),
            Some(p) => {
                let body = p.encode_to_vec();
                let mut out: Vec<u8> = Vec::new();
                out.push(10u8);
                out.push(body.len() as u8);
                let mut i: usize = 0;
                while i < body.len()
                    invariant
                        i <= body@.len(),
                        body@.len() <= 4,
                        out@ == seq![10u8, body@.len() as u8] + body@.take(i as int),
                    decreases body@.len() - i,
                {
                    out.push(body[i]);
                    assert(body@.take(i as int).push(body@[i as int]) == body@.take(i as int + 1));
                    i += 1;
                }
                proof {
                    assert(body@.take(body@.len() as int) == body@);
                    assert(field_key(1, 2) == seq![10u8]);
                    assert(varint(body@.len()) == seq![body@.len() as u8]);
                    assert(seq![10u8, body@.len() as u8] == seq![10u8] + seq![body@.len() as u8]);
                }
                out
            },
        }
    }
}

/// The settings that switch off DMs from guild members and contact sync.
pub open spec fn max_privacy() -> PredefinedSettings {
    PredefinedSettings {
        privacy: Some(
            PrivacySettings {
                allow_dms_from_guild_members: Some(false),
                contact_sync_enabled: Some(false),
            },
        ),
    }
}

/// The wire form of the most private predefined settings.
pub fn encode_max_privacy() -> (r: Vec<u8>)
    ensures
        r@ == settings_bytes(max_privacy()),
        r@ == seq![10u8, 4u8, 8u8, 0u8, 16u8, 0u8],
{
    let settings = PredefinedSettings {
        privacy: Some(
            PrivacySettings {
                allow_dms_from_guild_members: Some(false),
                contact_sync_enabled: Some(false),
            },
        ),
    };
    let r = settings.encode_to_vec();
    proof {
        assert(field_key(1, 0) == seq![8u8]);
        assert(field_key(2, 0) == seq![16u8]);
        assert(privacy_bytes(max_privacy().privacy.unwrap()) =~= seq![8u8, 0u8, 16u8, 0u8]);
        assert(varint(4) == seq![4u8]);
        assert(field_key(1, 2) == seq![10u8]);
        assert(settings_bytes(max_privacy()) =~= seq![10u8, 4u8, 8u8, 0u8, 16u8, 0u8]);
    }
    r
}

} // verus!
