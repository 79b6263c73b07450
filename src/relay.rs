use vstd::prelude::*;

verus! {

/// Longest Wi-Fi network name a device accepts, in bytes.
pub const MAX_SSID_LEN: usize = 32;

/// Longest Wi-Fi password a device accepts, in bytes.
pub const MAX_PASSWORD_LEN: usize = 64;

/// `Wifi`, which opens a Wi-Fi credentials command.
pub open spec fn wifi_word() -> Seq<u8> {
    seq![87u8, 105, 102, 105]
}

/// `FactoryReset`.
pub open spec fn factory_reset_word() -> Seq<u8> {
    seq![70u8, 97, 99, 116, 111, 114, 121, 82, 101, 115, 101, 116]
}

/// Why a command from a relay consumer was refused.
#[derive(Clone, Copy, Debug, PartialEq, Eq, Structural)]
pub enum CommandError {
    /// The network name or the password is longer than a device accepts.
    CredentialsTooLong,
}

impl CommandError {
    /// The text reported to the consumer.
    pub fn message(&self) -> (r: String)
        ensures
            r@ == seq!['S', 'S', 'I', 'D', ' ', 'o', 'r', ' ', 'p', 'a', 's', 's', 'w', 'o', 'r', 'd', ' ', 't', 'o', 'o', ' ', 'l', 'o', 'n', 'g'],
    {
        let r = String::from_str("SSID or password too long");
        proof {
            reveal_strlit("SSID or password too long");
        }
        assert(r@ =~= seq!['S', 'S', 'I', 'D', ' ', 'o', 'r', ' ', 'p', 'a', 's', 's', 'w', 'o', 'r', 'd', ' ', 't', 'o', 'o', ' ', 'l', 'o', 'n', 'g']);
        r
    }
}

fn push_all(out: &mut Vec<u8>, bytes: &[u8])
    ensures
        final(out)@ == old(out)@ + bytes@,
{
    let mut i: usize = 0;
    while i < bytes.len()
        invariant
            i <= bytes@.len(),
            out@ == old(out)@ + bytes@.subrange(0, i as int),
        decreases bytes@.len() - i,
    {
        out.push(bytes[i]);
        i = i + 1;
        assert(out@ =~= old(out)@ + bytes@.subrange(0, i as int));
    }
    assert(bytes@.subrange(0, i as int) =~= bytes@);
}

/// The serial command that gives a device Wi-Fi credentials, `Wifi\0{ssid}\0{password}`, or an
/// error when either field is longer than a device accepts.
pub fn wifi_command(ssid: &[u8], password: &[u8]) -> (r: Result<Vec<u8>, CommandError>)
    ensures
        r is Err <==> ssid@.len() > MAX_SSID_LEN || password@.len() > MAX_PASSWORD_LEN,
        r matches Ok(v) ==> v@ == wifi_word() + seq![0u8] + ssid@ + seq![0u8] + password@,
{
    if ssid.len() > MAX_SSID_LEN || password.len() > MAX_PASSWORD_LEN {
        return Err(CommandError::CredentialsTooLong);
    }
    let mut out: Vec<u8> = vec![87u8, 105, 102, 105, 0];
    push_all(&mut out, ssid);
    out.push(0);
    push_all(&mut out, password);
    assert(out@ =~= wifi_word() + seq![0u8] + ssid@ + seq![0u8] + password@);
    Ok(out)
}

/// The serial command that resets a device to its factory settings.
pub fn factory_reset_command() -> (r: Vec<u8>)
    ensures
        r@ == factory_reset_word(),
{
    let r: Vec<u8> = vec![70u8, 97, 99, 116, 111, 114, 121, 82, 101, 115, 101, 116];
    assert(r@ =~= factory_reset_word());
    r
}

} // verus!
