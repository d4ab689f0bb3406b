use vstd::prelude::*;

verus! {

/// The typed outcome a child process delivers to its parent over the
/// result pipe: the serialized success payload, or a structured error
/// as a chain of messages (outermost cause first), each carried as
/// UTF-8 bytes. The original error type cannot cross the process
/// boundary, so only its message chain travels.
pub enum ChildOutcome {
    Success(Vec<u8>),
    Failure(Vec<Vec<u8>>),
}

/// A result-channel decoding failure: the bytes are truncated or
/// unparsable.
pub enum ProtocolError {
    Malformed,
}

/// The little-endian four-byte encoding of a length.
pub open spec fn le32_bytes(n: u32) -> Seq<u8> {
    seq![
        (n & 0xff) as u8,
        ((n >> 8) & 0xff) as u8,
        ((n >> 16) & 0xff) as u8,
        ((n >> 24) & 0xff) as u8,
    ]
}

/// The value a little-endian four-byte length field holds.
pub open spec fn le32_val(b: Seq<u8>) -> int
    recommends
        b.len() == 4,
{
    b[0] as int + 256 * (b[1] as int) + 65536 * (b[2] as int) + 16777216 * (b[3] as int)
}

/// A four-byte little-endian length field decodes to the length it was
/// made from.
pub proof fn lemma_le32_roundtrip(n: u32)
    ensures
        le32_val(le32_bytes(n)) == n,
{
    assert((n & 0xff) + 0x100 * ((n >> 8) & 0xff) + 0x10000 * ((n >> 16) & 0xff) + 0x1000000 * ((n
        >> 24) & 0xff) == n) by (bit_vector);
    assert((n & 0xff) < 256 && ((n >> 8) & 0xff) < 256 && ((n >> 16) & 0xff) < 256 && ((n >> 24)
        & 0xff) < 256) by (bit_vector);
}

/// The concatenation of a message chain, each message prefixed with its
/// little-endian length.
pub open spec fn spec_cat(ms: Seq<Seq<u8>>) -> Seq<u8>
    decreases ms.len(),
{
    if ms.len() == 0 {
        Seq::empty()
    } else {
        le32_bytes(ms[0].len() as u32) + ms[0] + spec_cat(ms.drop_first())
    }
}

/// Whether an outcome fits the encoding: every error message must fit
/// its four-byte length field.
pub open spec fn encodable(o: ChildOutcome) -> bool {
    match o {
        ChildOutcome::Success(_) => true,
        ChildOutcome::Failure(ms) => forall|i: int|
            0 <= i < ms@.len() ==> (#[trigger] ms@[i])@.len() <= 0xffffffff,
    }
}

/// The encoding of an outcome: a tag byte, then for success the raw
/// payload to the end of the channel, and for failure the chain of
/// length-prefixed messages.
pub open spec fn spec_encode(o: ChildOutcome) -> Seq<u8> {
    match o {
        ChildOutcome::Success(p) => seq![0u8] + p@,
        ChildOutcome::Failure(ms) => seq![1u8] + spec_cat(ms.deep_view()),
    }
}

/// What a byte sequence of length-prefixed messages decodes to, if
/// anything: the whole sequence must be consumed.
pub open spec fn spec_decode_msgs(bytes: Seq<u8>) -> Option<Seq<Seq<u8>>>
    decreases bytes.len(),
{
    if bytes.len() == 0 {
        Some(Seq::empty())
    } else if bytes.len() < 4 {
        None
    } else {
        let n = le32_val(bytes.take(4));
        if bytes.len() >= 4 + n {
            match spec_decode_msgs(bytes.skip(4 + n)) {
                Some(rest) => Some(seq![bytes.subrange(4, 4 + n)] + rest),
                None => None,
            }
        } else {
            None
        }
    }
}

/// What a result-channel transmission decodes to, if anything: a
/// success flag, the payload of a success, and the message chain of a
/// failure.
pub open spec fn spec_decode(bytes: Seq<u8>) -> Option<(bool, Seq<u8>, Seq<Seq<u8>>)> {
    if bytes.len() < 1 {
        None
    } else if bytes[0] == 0 {
        Some((true, bytes.skip(1), Seq::empty()))
    } else if bytes[0] == 1 {
        match spec_decode_msgs(bytes.skip(1)) {
            Some(ms) => Some((false, Seq::empty(), ms)),
            None => None,
        }
    } else {
        None
    }
}

/// Whether an outcome value carries exactly what a decoded transmission
/// holds.
pub open spec fn outcome_matches(o: ChildOutcome, t: (bool, Seq<u8>, Seq<Seq<u8>>)) -> bool {
    match o {
        ChildOutcome::Success(p) => t.0 == true && t.1 == p@,
        ChildOutcome::Failure(ms) => t.0 == false && t.2 == ms.deep_view(),
    }
}

/// A chain of length-prefixed messages decodes to exactly the messages
/// it was made from.
pub proof fn lemma_cat_roundtrip(ms: Seq<Seq<u8>>)
    requires
        forall|i: int| 0 <= i < ms.len() ==> (#[trigger] ms[i]).len() <= 0xffffffff,
    ensures
        spec_decode_msgs(spec_cat(ms)) == Some(ms),
    decreases ms.len(),
{
    if ms.len() == 0 {
        assert(spec_decode_msgs(spec_cat(ms)) == Some(ms));
    } else {
        let head = ms[0];
        let n: u32 = head.len() as u32;
        let bytes = spec_cat(ms);
        lemma_le32_roundtrip(n);
        assert(bytes.take(4) =~= le32_bytes(n));
        assert(bytes.len() >= 4 + head.len());
        assert(bytes.subrange(4, 4 + head.len() as int) =~= head);
        assert(bytes.skip(4 + head.len() as int) =~= spec_cat(ms.drop_first()));
        lemma_cat_roundtrip(ms.drop_first());
        assert(seq![head] + ms.drop_first() =~= ms);
    }
}

/// The result channel round-trips: decoding the encoding of any
/// outcome yields exactly that outcome's payload or message chain.
pub proof fn lemma_outcome_roundtrip(o: ChildOutcome)
    requires
        encodable(o),
    ensures
        spec_decode(spec_encode(o)) is Some,
        outcome_matches(o, spec_decode(spec_encode(o)).unwrap()),
{
    match o {
        ChildOutcome::Success(p) => {
            let bytes = spec_encode(o);
            assert(bytes[0] == 0);
            assert(bytes.skip(1) =~= p@);
        },
        ChildOutcome::Failure(ms) => {
            let bytes = spec_encode(o);
            assert(bytes[0] == 1);
            assert(forall|i: int|
                0 <= i < ms.deep_view().len() ==> (#[trigger] ms.deep_view()[i]).len()
                    <= 0xffffffff) by {
                assert(forall|i: int|
                    0 <= i < ms@.len() ==> ms.deep_view()[i] == (#[trigger] ms@[i])@);
            }
            assert(bytes.skip(1) =~= spec_cat(ms.deep_view()));
            lemma_cat_roundtrip(ms.deep_view());
        },
    }
}

/// Appends a four-byte little-endian length field.
fn push_le32(out: &mut Vec<u8>, n: u32)
    ensures
        final(out)@ == old(out)@ + le32_bytes(n),
{
    out.push((n & 0xff) as u8);
    out.push(((n >> 8) & 0xff) as u8);
    out.push(((n >> 16) & 0xff) as u8);
    out.push(((n >> 24) & 0xff) as u8);
    proof {
        assert(final(out)@ =~= old(out)@ + le32_bytes(n));
    }
}

/// Child-side encoding of the outcome for the result pipe.
pub fn encode_outcome(o: &ChildOutcome) -> (r: Vec<u8>)
    requires
        encodable(*o),
    ensures
        r@ == spec_encode(*o),
{
    let mut out: Vec<u8> = Vec::new();
    match o {
        ChildOutcome::Success(p) => {
            out.push(0u8);
            out.extend_from_slice(p.as_slice());
            proof {
                assert(out@ =~= spec_encode(*o));
            }
        },
        ChildOutcome::Failure(ms) => {
            out.push(1u8);
            let mut i: usize = 0;
            proof {
                assert(out@ =~= seq![1u8] + spec_cat(ms.deep_view().take(0)));
            }
            while i < ms.len()
                invariant
                    encodable(*o),
                    *o == ChildOutcome::Failure(*ms),
                    0 <= i <= ms@.len(),
                    out@ == seq![1u8] + spec_cat(ms.deep_view().take(i as int)),
                decreases ms@.len() - i,
            {
                let msg = &ms[i];
                push_le32(&mut out, msg.len() as u32);
                out.extend_from_slice(msg.as_slice());
                proof {
                    lemma_cat_snoc(ms.deep_view().take(i as int), msg@);
                    assert(ms.deep_view()[i as int] =~= msg@);
                    assert(ms.deep_view().take(i + 1) =~= ms.deep_view().take(i as int).push(
                        ms.deep_view()[i as int],
                    ));
                    assert(out@ =~= seq![1u8] + spec_cat(ms.deep_view().take(i + 1)));
                }
                i = i + 1;
            }
            proof {
                assert(ms.deep_view().take(ms@.len() as int) =~= ms.deep_view());
                assert(out@ =~= spec_encode(*o));
            }
        },
    }
    out
}

/// Appending one message to a chain appends its length field and bytes
/// to the chain's encoding.
pub proof fn lemma_cat_snoc(ms: Seq<Seq<u8>>, m: Seq<u8>)
    ensures
        spec_cat(ms.push(m)) == spec_cat(ms) + le32_bytes(m.len() as u32) + m,
    decreases ms.len(),
{
    assert(ms.push(m)[0] == if ms.len() == 0 {
        m
    } else {
        ms[0]
    });
    if ms.len() == 0 {
        assert(ms.push(m).drop_first() =~= Seq::<Seq<u8>>::empty());
        assert(spec_cat(Seq::<Seq<u8>>::empty()) == Seq::<u8>::empty());
        assert(spec_cat(ms.push(m)) =~= spec_cat(ms) + le32_bytes(m.len() as u32) + m);
    } else {
        assert(ms.push(m).drop_first() =~= ms.drop_first().push(m));
        lemma_cat_snoc(ms.drop_first(), m);
        assert(spec_cat(ms.push(m)) =~= spec_cat(ms) + le32_bytes(m.len() as u32) + m);
    }
}

/// Parent-side decoding of one result-pipe transmission: yields the
/// outcome the bytes encode, and fails with the protocol error exactly
/// when the bytes are truncated or unparsable.
pub fn decode_outcome(bytes: &Vec<u8>) -> (r: Result<ChildOutcome, ProtocolError>)
    ensures
        match spec_decode(bytes@) {
            Some(t) => r matches Ok(o) && outcome_matches(o, t) && encodable(o),
            None => r == Err::<ChildOutcome, ProtocolError>(ProtocolError::Malformed),
        },
{
    if bytes.len() < 1 {
        return Err(ProtocolError::Malformed);
    }
    let tag = bytes[0];
    if tag == 0 {
        let mut payload: Vec<u8> = Vec::new();
        let mut i: usize = 1;
        while i < bytes.len()
            invariant
                1 <= i <= bytes@.len(),
                payload@ == bytes@.subrange(1, i as int),
            decreases bytes@.len() - i,
        {
            payload.push(bytes[i]);
            i = i + 1;
            proof {
                assert(payload@ =~= bytes@.subrange(1, i as int));
            }
        }
        proof {
            assert(payload@ =~= bytes@.skip(1));
        }
        Ok(ChildOutcome::Success(payload))
    } else if tag == 1 {
        let mut msgs: Vec<Vec<u8>> = Vec::new();
        let mut pos: usize = 1;
        while pos < bytes.len()
            invariant
                1 <= pos <= bytes@.len(),
                bytes@.len() >= 1 && bytes@[0] == 1,
                forall|i: int| 0 <= i < msgs@.len() ==> (#[trigger] msgs@[i])@.len() <= 0xffffffff,
                spec_decode_msgs(bytes@.skip(1)) == match spec_decode_msgs(
                    bytes@.skip(pos as int),
                ) {
                    Some(rest) => Some::<Seq<Seq<u8>>>(msgs.deep_view() + rest),
                    None => None::<Seq<Seq<u8>>>,
                },
            decreases bytes@.len() - pos,
        {
            let remaining = bytes.len() - pos;
            if remaining < 4 {
                return Err(ProtocolError::Malformed);
            }
            let n: u32 = bytes[pos] as u32 + 256 * (bytes[pos + 1] as u32) + 65536 * (bytes[pos
                + 2] as u32) + 16777216 * (bytes[pos + 3] as u32);
            proof {
                assert(bytes@.skip(pos as int).take(4) =~= bytes@.subrange(
                    pos as int,
                    pos as int + 4,
                ));
                assert(n as int == le32_val(bytes@.skip(pos as int).take(4)));
            }
            if remaining - 4 < n as usize {
                return Err(ProtocolError::Malformed);
            }
            let mut msg: Vec<u8> = Vec::new();
            let start = pos + 4;
            let end = start + n as usize;
            let mut j: usize = start;
            while j < end
                invariant
                    end == start + n as usize,
                    end <= bytes@.len(),
                    start <= j <= end,
                    msg@ == bytes@.subrange(start as int, j as int),
                decreases end - j,
            {
                msg.push(bytes[j]);
                j = j + 1;
                proof {
                    assert(msg@ =~= bytes@.subrange(start as int, j as int));
                }
            }
            let ghost old_pos = pos as int;
            let ghost old_msgs = msgs.deep_view();
            pos = start + n as usize;
            proof {
                assert(msg@ =~= bytes@.skip(old_pos).subrange(4, 4 + n as int));
                assert(bytes@.skip(old_pos).skip(4 + n as int) =~= bytes@.skip(pos as int));
                assert(spec_decode_msgs(bytes@.skip(old_pos)) == match spec_decode_msgs(
                    bytes@.skip(pos as int),
                ) {
                    Some(rest) => Some::<Seq<Seq<u8>>>(seq![msg@] + rest),
                    None => None::<Seq<Seq<u8>>>,
                });
            }
            msgs.push(msg);
            proof {
                assert(msgs.deep_view() =~~= old_msgs.push(bytes@.subrange(
                    start as int,
                    pos as int,
                )));
                assert(forall|rest: Seq<Seq<u8>>|
                    old_msgs + (seq![bytes@.subrange(start as int, pos as int)] + rest)
                        =~= #[trigger] (msgs.deep_view() + rest));
            }
        }
        proof {
            assert(bytes@.skip(pos as int) =~= Seq::<u8>::empty());
            assert(msgs.deep_view() + Seq::<Seq<u8>>::empty() =~= msgs.deep_view());
        }
        Ok(ChildOutcome::Failure(msgs))
    } else {
        Err(ProtocolError::Malformed)
    }
}

} // verus!
