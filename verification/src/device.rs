use vstd::prelude::*;

verus! {

/// A blocking byte transport to the converter.
///
/// The command dispatcher and the handshake negotiator only ever talk to
/// the device through this capability, so they stay transport-agnostic and
/// can be exercised against [`MockDevice`]. The ghost write log is what the
/// dispatcher's contracts are stated over: it pins, byte for byte, what a
/// successful command put on the wire.
pub trait Device {
    /// The payloads handed to `write_all` so far, oldest first.
    spec fn written(&self) -> Seq<Seq<u8>>;

    /// Write the whole buffer to the device, blocking until it is out or
    /// the transport fails; the error carries the transport's description.
    fn write_all(&mut self, data: &[u8]) -> (r: Result<(), String>)
        ensures
            r is Ok ==> final(self).written() == old(self).written().push(data@),
    ;

    /// One blocking read into `buf`, bounded by the transport's timeout;
    /// returns how many bytes were placed at the front of `buf`.
    fn read(&mut self, buf: &mut Vec<u8>) -> (r: Result<usize, String>)
        ensures
            final(buf)@.len() == old(buf)@.len(),
            final(self).written() == old(self).written(),
            r is Ok ==> r->Ok_0 <= old(buf)@.len(),
    ;
}

/// An in-memory double of the converter: it records every buffer written
/// to it and answers every read with one scripted response. A scripted
/// write fault makes it play a broken transport instead.
pub struct MockDevice {
    /// Every buffer written, oldest first.
    pub writes: Vec<Vec<u8>>,
    /// The bytes each read hands back.
    pub response: Vec<u8>,
    /// When set, every write fails with this transport description.
    pub write_fault: Option<String>,
}

impl MockDevice {
    /// A device double that will reply with `response`.
    pub fn new(response: Vec<u8>) -> (d: MockDevice)
        ensures
            d.written() == Seq::<Seq<u8>>::empty(),
            d.response@ == response@,
            d.write_fault is None,
    {
        let d = MockDevice { writes: Vec::new(), response, write_fault: None };
        proof {
            assert(d.written() =~= Seq::<Seq<u8>>::empty());
        }
        d
    }
}

impl Device for MockDevice {
    open spec fn written(&self) -> Seq<Seq<u8>> {
        self.writes@.map_values(|w: Vec<u8>| w@)
    }

    fn write_all(&mut self, data: &[u8]) -> (r: Result<(), String>) {
        match &self.write_fault {
            Option::Some(detail) => Err(detail.clone()),
            Option::None => {
                let v = vstd::slice::slice_to_vec(data);
                self.writes.push(v);
                proof {
                    assert(self.written() =~= old(self).written().push(data@));
                }
                Ok(())
            },
        }
    }

    fn read(&mut self, buf: &mut Vec<u8>) -> (r: Result<usize, String>) {
        let n = if self.response.len() < buf.len() {
            self.response.len()
        } else {
            buf.len()
        };
        let mut i: usize = 0;
        while i < n
            invariant
                i <= n,
                n <= buf@.len(),
                n <= self.response@.len(),
                buf@.len() == old(buf)@.len(),
                *self == *old(self),
            decreases n - i,
        {
            let b = self.response[i];
            buf[i] = b;
            i = i + 1;
        }
        Ok(n)
    }
}

} // verus!
