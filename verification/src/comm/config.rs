//! The server's configuration: the database to write to and the devices allowed
//! to register, by MAC.
use vstd::prelude::*;

verus! {

/// Database coordinates and the registered devices, as pairs of a MAC string
/// (`"XX:XX:XX:XX:XX:XX"`) and the device's name, no MAC twice.
pub struct ConfigFile {
    pub url: String,
    pub port: String,
    pub org_id: String,
    pub bucket: String,
    pub token: String,
    pub devices: Vec<(String, String)>,
}

/// The name `devices` gives to `key`, if any.
pub open spec fn configured_name(devices: Seq<(String, String)>, key: Seq<char>) -> Option<Seq<char>>
    decreases devices.len(),
{
    if devices.len() == 0 {
        None
    } else if devices[0].0@ == key {
        Some(devices[0].1@)
    } else {
        configured_name(devices.drop_first(), key)
    }
}

impl ConfigFile {
    /// The name configured for the device with MAC string `key`.
    pub fn device_name(&self, key: &String) -> (r: Option<String>)
        ensures
            r matches Some(n) ==> configured_name(self.devices@, key@) == Some(n@),
            r is None ==> configured_name(self.devices@, key@) is None,
    {
        let ghost d = self.devices@;
        let mut i: usize = 0;
        assert(d.skip(0) =~= d);
        while i < self.devices.len()
            invariant
                d == self.devices@,
                i <= d.len(),
                configured_name(d, key@) == configured_name(d.skip(i as int), key@),
            decreases d.len() - i,
        {
            assert(d.skip(i as int).drop_first() =~= d.skip(i + 1));
            if self.devices[i].0 == *key {
                return Some(self.devices[i].1.clone());
            }
            i = i + 1;
        }
        None
    }
}

/// Law: the name the configuration gives to `key` is the name of an entry whose key
/// is exactly `key`, the first such entry; a key that no entry has exactly gets none.
pub proof fn lemma_configured_name_exact(devices: Seq<(String, String)>, key: Seq<char>)
    ensures
        configured_name(devices, key) is None <==> forall|i: int|
            0 <= i < devices.len() ==> (#[trigger] devices[i]).0@ != key,
        configured_name(devices, key) matches Some(n) ==> exists|i: int|
            0 <= i < devices.len() && (#[trigger] devices[i]).0@ == key && devices[i].1@ == n
                && forall|j: int| 0 <= j < i ==> (#[trigger] devices[j]).0@ != key,
    decreases devices.len(),
{
    if devices.len() > 0 {
        let rest = devices.drop_first();
        lemma_configured_name_exact(rest, key);
        assert forall|i: int| 0 <= i < rest.len() implies rest[i] == devices[i + 1] by {}
        if devices[0].0@ != key {
            if configured_name(devices, key) is None {
                assert forall|i: int| 0 <= i < devices.len() implies (#[trigger] devices[i]).0@ != key by {
                    if i > 0 {
                        assert(rest[i - 1] == devices[i]);
                    }
                }
            } else {
                let n = configured_name(devices, key)->Some_0;
                let i = choose|i: int|
                    0 <= i < rest.len() && (#[trigger] rest[i]).0@ == key && rest[i].1@ == n
                        && forall|j: int| 0 <= j < i ==> (#[trigger] rest[j]).0@ != key;
                assert(devices[i + 1] == rest[i]);
                assert forall|j: int| 0 <= j < i + 1 implies (#[trigger] devices[j]).0@ != key by {
                    if j > 0 {
                        assert(rest[j - 1] == devices[j]);
                    }
                }
            }
        } else {
            assert(devices[0].0@ == key);
        }
    }
}

} // verus!
