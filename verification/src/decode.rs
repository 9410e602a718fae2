//! The trusted boundary to the audio decode library: probing a byte
//! stream for a format, pulling container packets, and decoding packets
//! to interleaved samples.
//!
//! Samples cross the boundary as the bit patterns of the decoder's 32-bit
//! float output, so the windowing logic can count and slice them as plain
//! integers; nothing downstream reads a sample's numeric value.

use vstd::prelude::*;

verus! {

#[verifier::external_type_specification]
#[verifier::external_body]
pub struct ExPacket(symphonia::core::formats::Packet);

#[verifier::external_type_specification]
#[verifier::external_body]
pub struct ExAudioBufferRef<'a>(symphonia::core::audio::AudioBufferRef<'a>);

/// Relies on symphonia's `Packet::track_id`: the identifier of the track
/// the packet belongs to, used to discard packets of unselected tracks.
pub assume_specification[ symphonia::core::formats::Packet::track_id ](
    p: &symphonia::core::formats::Packet,
) -> (r: u32);

/// An open probe-and-decode session for one track: the container's format
/// reader, the selected default track's decoder, and that track's
/// identifier. Opaque to the verifier: the reader and decoder are boxed
/// trait objects of the decode library.
#[verifier::external_body]
pub struct DecoderSession {
    format: Box<dyn symphonia::core::formats::FormatReader>,
    decoder: Box<dyn symphonia::core::codecs::Decoder>,
    track_id: u32,
}

/// What decoding one packet produced.
pub enum DecodeOutcome {
    /// The packet's interleaved sample bit patterns and the decoded
    /// buffer's native sample rate.
    Decoded { samples: Vec<u32>, sample_rate: u32 },
    /// A recoverable per-packet decode error: the packet is skipped and
    /// decoding continues.
    Recoverable,
    /// Any other decode failure: the track's decoding ends here.
    Fatal,
}

impl DecoderSession {
    /// Relies on symphonia's probe, default-track selection and codec
    /// registry: wraps the reader in a media source stream, probes it with
    /// a fixed mp3 container hint, takes the format's default track and
    /// builds a decoder for it. `None` when no format is probed, no
    /// default track exists, or no decoder can be built — the cases the
    /// caller reports as a format failure.
    #[verifier::external_body]
    pub fn open<R: std::io::Read + Send + Sync + 'static>(reader: R) -> (out: Option<DecoderSession>) {
        let src = symphonia::core::io::ReadOnlySource::new(reader);
        let mss = symphonia::core::io::MediaSourceStream::new(Box::new(src), Default::default());
        let mut hint = symphonia::core::probe::Hint::new();
        hint.with_extension("mp3");
        let probed = symphonia::default::get_probe()
            .format(&hint, mss, &Default::default(), &Default::default())
            .ok()?;
        let track = probed.format.default_track()?;
        let decoder = symphonia::default::get_codecs()
            .make(&track.codec_params, &Default::default())
            .ok()?;
        let track_id = track.id;
        Some(DecoderSession { format: probed.format, decoder, track_id })
    }

    /// The identifier of the selected default track.
    #[verifier::external_body]
    pub fn track_id(&self) -> (id: u32) {
        self.track_id
    }

    /// Relies on `FormatReader::next_packet`: the container's next packet.
    /// `None` on any failure, end of stream included: the decode stage
    /// treats every packet-read failure as the end of the track.
    #[verifier::external_body]
    pub fn next_packet(&mut self) -> (out: Option<symphonia::core::formats::Packet>) {
        self.format.next_packet().ok()
    }

    /// Relies on `Decoder::decode`: decodes one packet into an audio
    /// buffer, handed on to `interleave_bits`. A decode library error
    /// marked recoverable maps to `Recoverable`, every other error to
    /// `Fatal`.
    #[verifier::external_body]
    pub fn decode_packet(&mut self, packet: &symphonia::core::formats::Packet) -> (out: DecodeOutcome) {
        match self.decoder.decode(packet) {
            Ok(decoded) => {
                let (samples, sample_rate) = interleave_bits(decoded);
                DecodeOutcome::Decoded { samples, sample_rate }
            }
            Err(symphonia::core::errors::Error::DecodeError(_)) => DecodeOutcome::Recoverable,
            Err(_) => DecodeOutcome::Fatal,
        }
    }
}

/// Relies on `SampleBuffer::copy_interleaved_ref`: interleaves the decoded
/// planes into 32-bit float samples and hands back their bit patterns with
/// the buffer's native rate. The inner `if let` only ties the sample
/// buffer's element type to the decoder's float output; it moves no data.
#[verifier::external_body]
fn interleave_bits(decoded: symphonia::core::audio::AudioBufferRef<'_>) -> (out: (Vec<u32>, u32)) {
    let spec = *decoded.spec();
    let mut sbuf = symphonia::core::audio::SampleBuffer::new(decoded.capacity() as u64, spec);
    if let symphonia::core::audio::AudioBufferRef::F32(fb) = &decoded {
        if let (Some(p), Some(d)) = (fb.planes().planes().first(), sbuf.samples_mut().first_mut()) {
            if let Some(s) = p.first() { *d = *s; }
        }
    }
    sbuf.copy_interleaved_ref(decoded);
    (bytemuck::cast_slice(sbuf.samples()).to_vec(), spec.rate)
}

} // verus!
