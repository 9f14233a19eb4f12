//! Planning and decision logic for the universal decode/resample stage.
//!
//! The canonical signal produced by decoding is mono PCM at 16 kHz. The
//! surrounding I/O (probing a container, pulling packets, running the FFT
//! resampler) lives outside the verified library; the decisions it has to
//! make — which track to decode, how to react to each packet outcome, and
//! how the fixed-size resampler blocks are laid out — are made here.

use vstd::prelude::*;

verus! {

/// The sample rate, in Hz, of the canonical signal.
pub const CANONICAL_SAMPLE_RATE: u32 = 16000;

/// What decoding can fail with, fatally: the recoverable per-packet faults
/// never surface here.
#[derive(Clone, Copy, Debug, PartialEq, Eq, Structural)]
pub enum DecodeError {
    /// No track of the container has a decodable codec.
    NoSupportedTrack,
    /// The selected track does not state its sample rate.
    MissingSampleRate,
    /// Reading a packet failed with an input fault other than end of stream.
    PacketIo,
    /// Reading a packet failed with a stream fault.
    PacketRead,
    /// Decoding a packet failed with a fault that is not a recoverable
    /// corrupt-data fault.
    DecodeFailed,
}

/// What track selection reads of one container track.
#[derive(Clone, Copy, Debug)]
pub struct TrackInfo {
    /// The container's identifier for the track.
    pub id: u32,
    /// Whether the track's codec is known, that is, not the null sentinel.
    pub codec_known: bool,
    /// The track's sample rate, when its metadata states one.
    pub sample_rate_hz: Option<u32>,
}

/// The track decoding will read, with the sample rate its metadata states.
#[derive(Clone, Copy, Debug)]
pub struct SelectedTrack {
    pub id: u32,
    pub sample_rate_hz: u32,
}

/// True when track `i` is the first of `tracks` with a known codec.
pub open spec fn is_first_decodable(tracks: Seq<TrackInfo>, i: int) -> bool {
    &&& 0 <= i < tracks.len()
    &&& tracks[i].codec_known
    &&& forall|j: int| 0 <= j < i ==> !(#[trigger] tracks[j]).codec_known
}

/// Choose the track to decode: the first whose codec is known. Fails with
/// `NoSupportedTrack` when no track qualifies and with `MissingSampleRate`
/// when the chosen track states no sample rate.
pub fn select_track(tracks: &Vec<TrackInfo>) -> (r: Result<SelectedTrack, DecodeError>)
    ensures
        (match r {
            Ok(sel) => exists|i: int|
                {
                    &&& #[trigger] is_first_decodable(tracks@, i)
                    &&& sel.id == tracks@[i].id
                    &&& tracks@[i].sample_rate_hz == Some(sel.sample_rate_hz)
                },
            Err(e) => match e {
                DecodeError::NoSupportedTrack => forall|j: int|
                    0 <= j < tracks@.len() ==> !(#[trigger] tracks@[j]).codec_known,
                DecodeError::MissingSampleRate => exists|i: int|
                    {
                        &&& #[trigger] is_first_decodable(tracks@, i)
                        &&& tracks@[i].sample_rate_hz is None
                    },
                _ => false,
            },
        }),
{
    let mut k: usize = 0;
    while k < tracks.len()
        invariant
            k <= tracks@.len(),
            forall|j: int| 0 <= j < k ==> !(#[trigger] tracks@[j]).codec_known,
        decreases tracks@.len() - k,
    {
        let t = tracks[k];
        if t.codec_known {
            assert(is_first_decodable(tracks@, k as int));
            match t.sample_rate_hz {
                Some(rate) => {
                    return Ok(SelectedTrack { id: t.id, sample_rate_hz: rate });
                },
                None => {
                    return Err(DecodeError::MissingSampleRate);
                },
            }
        }
        k = k + 1;
    }
    Err(DecodeError::NoSupportedTrack)
}

/// The outcome of trying to read the next packet from the container.
#[derive(Clone, Copy, Debug)]
pub enum PacketOutcome {
    /// A packet arrived, belonging to the track with this identifier.
    Packet { track_id: u32 },
    /// The stream ended: the normal end of decoding.
    EndOfStream,
    /// An input fault other than end of stream.
    IoFailed,
    /// Any other fault while reading.
    ReadFailed,
}

/// What the decode loop does next with a packet read.
#[derive(Clone, Copy, Debug, PartialEq, Eq, Structural)]
pub enum PacketStep {
    /// Decode the packet: it belongs to the selected track.
    DecodePacket,
    /// Skip the packet: it belongs to another track.
    SkipPacket,
    /// Stop the loop normally.
    FinishStream,
}

/// The decode loop's reaction to one packet read: decode packets of the
/// selected track, skip those of other tracks, finish normally at end of
/// stream, and abort on any read fault.
pub fn on_packet_outcome(outcome: &PacketOutcome, selected_id: u32) -> (r: Result<
    PacketStep,
    DecodeError,
>)
    ensures
        (match *outcome {
            PacketOutcome::Packet { track_id } => r == Ok::<PacketStep, DecodeError>(
                if track_id == selected_id {
                    PacketStep::DecodePacket
                } else {
                    PacketStep::SkipPacket
                },
            ),
            PacketOutcome::EndOfStream => r == Ok::<PacketStep, DecodeError>(
                PacketStep::FinishStream,
            ),
            PacketOutcome::IoFailed => r == Err::<PacketStep, DecodeError>(DecodeError::PacketIo),
            PacketOutcome::ReadFailed => r == Err::<PacketStep, DecodeError>(
                DecodeError::PacketRead,
            ),
        }),
{
    match *outcome {
        PacketOutcome::Packet { track_id } => {
            if track_id == selected_id {
                Ok(PacketStep::DecodePacket)
            } else {
                Ok(PacketStep::SkipPacket)
            }
        },
        PacketOutcome::EndOfStream => Ok(PacketStep::FinishStream),
        PacketOutcome::IoFailed => Err(DecodeError::PacketIo),
        PacketOutcome::ReadFailed => Err(DecodeError::PacketRead),
    }
}

/// The outcome of decoding one packet of the selected track.
#[derive(Clone, Copy, Debug)]
pub enum DecodedPacket {
    /// The packet decoded into an audio buffer; `supported` says whether its
    /// sample representation is one of the four the downmix accepts
    /// (32-bit float, 64-bit float, 16-bit signed, 8-bit unsigned).
    Frames { supported: bool },
    /// The decoder reported corrupt data: recoverable, the loop goes on.
    Corrupt,
    /// The decoder failed in any other way: fatal.
    Failed,
}

/// What the decode loop does next with a decoded packet.
#[derive(Clone, Copy, Debug, PartialEq, Eq, Structural)]
pub enum DecodeStep {
    /// Downmix the buffer into the mono signal.
    Downmix,
    /// Contribute nothing: an unsupported representation or a corrupt
    /// packet, both logged and skipped.
    SkipData,
}

/// The decode loop's reaction to one decoded packet: downmix a supported
/// buffer, skip an unsupported one or a corrupt packet, and abort on any
/// other decoder fault.
pub fn on_decoded_packet(outcome: &DecodedPacket) -> (r: Result<DecodeStep, DecodeError>)
    ensures
        (match *outcome {
            DecodedPacket::Frames { supported } => r == Ok::<DecodeStep, DecodeError>(
                if supported {
                    DecodeStep::Downmix
                } else {
                    DecodeStep::SkipData
                },
            ),
            DecodedPacket::Corrupt => r == Ok::<DecodeStep, DecodeError>(DecodeStep::SkipData),
            DecodedPacket::Failed => r == Err::<DecodeStep, DecodeError>(DecodeError::DecodeFailed),
        }),
{
    match *outcome {
        DecodedPacket::Frames { supported } => {
            if supported {
                Ok(DecodeStep::Downmix)
            } else {
                Ok(DecodeStep::SkipData)
            }
        },
        DecodedPacket::Corrupt => Ok(DecodeStep::SkipData),
        DecodedPacket::Failed => Err(DecodeError::DecodeFailed),
    }
}

/// True when a mono signal at `rate` Hz must be resampled to reach the
/// canonical rate.
pub fn needs_resample(rate: u32) -> (r: bool)
    ensures
        r <==> rate != CANONICAL_SAMPLE_RATE,
{
    rate != CANONICAL_SAMPLE_RATE
}

/// The fixed number of input frames handed to the resampler per block.
pub const RESAMPLER_BLOCK: usize = 1024;

/// Block count and padded length for feeding a signal of length `len` to the
/// fixed-input-size resampler: the signal is split into `RESAMPLER_BLOCK`-sized
/// blocks and the final partial block is zero-padded to the full size.
pub fn resample_layout(len: usize) -> (r: (usize, usize))
    requires
        len <= usize::MAX - (RESAMPLER_BLOCK - 1),
    ensures
        r.0 == (len + (RESAMPLER_BLOCK - 1)) / (RESAMPLER_BLOCK as int),
        r.1 == r.0 * RESAMPLER_BLOCK,
        len <= r.1 < len + RESAMPLER_BLOCK,
        (len == 0) <==> (r.0 == 0),
{
    let blocks = (len + (RESAMPLER_BLOCK - 1)) / RESAMPLER_BLOCK;
    (blocks, blocks * RESAMPLER_BLOCK)
}

/// Length of a signal of `len` samples once zero-padded to whole resampler
/// blocks.
pub open spec fn padded_len(len: int) -> int {
    ((len + (RESAMPLER_BLOCK - 1)) / (RESAMPLER_BLOCK as int)) * RESAMPLER_BLOCK
}

/// Extend one resampler block to its full size: the samples of `block`
/// followed by copies of `filler` — the zero sample, for the final partial
/// block of a signal — up to `size`.
pub fn pad_block<S: Copy>(block: &[S], filler: S, size: usize) -> (r: Vec<S>)
    requires
        block@.len() <= size,
    ensures
        r@.len() == size,
        r@.subrange(0, block@.len() as int) == block@,
        forall|i: int| block@.len() <= i < size ==> r@[i] == filler,
{
    let mut out = vstd::slice::slice_to_vec(block);
    while out.len() < size
        invariant
            block@.len() <= out@.len() <= size,
            out@.subrange(0, block@.len() as int) == block@,
            forall|i: int| block@.len() <= i < out@.len() ==> out@[i] == filler,
        decreases size - out@.len(),
    {
        out.push(filler);
        proof {
            assert(out@.subrange(0, block@.len() as int) =~= block@);
        }
    }
    out
}

/// Duration accounting for the block-based resampler: when a source signal
/// of `len` samples at `rate` Hz is zero-padded to whole resampler blocks
/// and converted to the canonical rate at the exact sample-count ratio, the
/// output of `out_len` samples lasts at least as long as the source and
/// exceeds it by less than one resampler block of source time. Scaled by
/// `rate` times the canonical rate, that is: the duration difference
/// `out_len / 16000 - len / rate` lies in `[0, RESAMPLER_BLOCK / rate)`.
pub proof fn lemma_resampled_duration(len: int, rate: int, out_len: int)
    requires
        0 <= len,
        1 <= rate,
        out_len * rate == padded_len(len) * (CANONICAL_SAMPLE_RATE as int),
    ensures
        0 <= out_len * rate - len * (CANONICAL_SAMPLE_RATE as int),
        out_len * rate - len * (CANONICAL_SAMPLE_RATE as int) < RESAMPLER_BLOCK * (
        CANONICAL_SAMPLE_RATE as int),
{
    let b = RESAMPLER_BLOCK as int;
    let q = (len + (b - 1)) / b;
    assert(len + (b - 1) == q * b + ((len + (b - 1)) % b)) by (nonlinear_arith)
        requires b > 0 && q == (len + (b - 1)) / b;
    assert(0 <= (len + (b - 1)) % b < b) by (nonlinear_arith)
        requires b > 0;
    assert(len <= padded_len(len) < len + b);
    assert((padded_len(len) - len) * (CANONICAL_SAMPLE_RATE as int) < b * (
    CANONICAL_SAMPLE_RATE as int)) by (nonlinear_arith)
        requires 0 <= padded_len(len) - len < b;
    assert(out_len * rate - len * (CANONICAL_SAMPLE_RATE as int) == (padded_len(len) - len) * (
    CANONICAL_SAMPLE_RATE as int)) by (nonlinear_arith)
        requires out_len * rate == padded_len(len) * (CANONICAL_SAMPLE_RATE as int);
}

} // verus!
