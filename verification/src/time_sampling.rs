//! Time samplings: descriptors of the time axis shared by properties. Each
//! is decoded from the archive-wide table as a maximum sample count, a
//! cycle duration and the per-cycle sample times. Times are `f64` values on
//! disk and are carried here as their little-endian bit patterns.
use vstd::prelude::*;
use crate::chunks::DataChunk;
use crate::endian::{spec_u32_at, spec_u64_at};
use crate::error::{OgawaError, ParsingError};
use crate::reader::ByteReader;

verus! {

/// The bit pattern of the sentinel cycle duration (`f64::MAX / 32`) that
/// marks a sampling as acyclic.
pub const ACYCLIC_TIME_PER_CYCLE_BITS: u64 = 0x7f9f_ffff_ffff_ffff;

/// The sample count that marks a sampling as acyclic.
pub const ACYCLIC_NUM_SAMPLES: u32 = 0xffff_ffff;

/// The bit pattern of an `f64` 1.0: the default cycle duration.
pub const DEFAULT_TIME_PER_CYCLE_BITS: u64 = 0x3ff0_0000_0000_0000;

/// The shape of a sampling's time axis: how many samples one cycle holds and
/// how long a cycle lasts (as `f64` bits).
#[derive(Debug, Clone, Copy, PartialEq, Eq, Structural)]
pub struct TimeSamplingType {
    pub num_samples_per_cycle: u32,
    pub time_per_cycle: u64,
}

/// One time sampling: its shape and the per-cycle sample times (as `f64`
/// bits).
#[derive(Debug, Clone)]
pub struct TimeSampling {
    pub sampling_type: TimeSamplingType,
    pub samples: Vec<u64>,
}

/// Parses the time-sampling block from byte position `pos` on: repeatedly a
/// u32 maximum sample count, an f64 cycle duration, a u32 per-cycle count,
/// then that many f64 sample times. The sentinel duration marks the
/// sampling acyclic. Each model is
/// `(max_sample, num_samples_per_cycle, time_per_cycle_bits, sample_bits)`.
pub open spec fn spec_time_samplings_from(b: Seq<u8>, pos: int) -> Result<
    Seq<(u32, u32, u64, Seq<u64>)>,
    OgawaError,
>
    decreases b.len() - pos,
{
    if pos < 0 || pos > b.len() {
        Err(OgawaError::IoError)
    } else if pos == b.len() {
        Ok(Seq::empty())
    } else if pos + 16 > b.len() {
        Err(OgawaError::IoError)
    } else {
        let max_sample = spec_u32_at(b, pos);
        let tpc = spec_u64_at(b, pos + 4);
        let nspc = spec_u32_at(b, pos + 12);
        if pos + 16 + 8 * nspc > b.len() {
            Err(OgawaError::ParsingError(ParsingError::InvalidAlembicFile))
        } else {
            let samples = Seq::new(nspc as nat, |i: int| spec_u64_at(b, pos + 16 + 8 * i));
            let entry = if tpc == ACYCLIC_TIME_PER_CYCLE_BITS {
                (max_sample, ACYCLIC_NUM_SAMPLES, ACYCLIC_TIME_PER_CYCLE_BITS, samples)
            } else {
                (max_sample, nspc, tpc, samples)
            };
            match spec_time_samplings_from(b, pos + 16 + 8 * nspc) {
                Ok(rest) => Ok(seq![entry] + rest),
                Err(e) => Err(e),
            }
        }
    }
}

/// Whether decoded samplings and maxima match the parsed models.
pub open spec fn spec_samplings_match(
    samplings: Seq<TimeSampling>,
    maxima: Seq<i64>,
    models: Seq<(u32, u32, u64, Seq<u64>)>,
) -> bool {
    &&& samplings.len() == models.len()
    &&& maxima.len() == models.len()
    &&& forall|i: int|
        0 <= i < models.len() ==> (#[trigger] samplings[i]).sampling_type.num_samples_per_cycle
            == models[i].1 && samplings[i].sampling_type.time_per_cycle == models[i].2
            && samplings[i].samples@ == models[i].3 && maxima[i] == models[i].0 as i64
}

/// Decodes the archive's time-sampling table and per-sampling maximum
/// sample counts from a data chunk. An empty chunk yields the one default
/// sampling: one sample per cycle of duration 1.0, starting at time 0.
pub fn read_time_samplings_and_max(data: &DataChunk, reader: &ByteReader) -> (r: Result<
    (Vec<TimeSampling>, Vec<i64>),
    OgawaError,
>)
    ensures
        data.size == 0 ==> r is Ok && r->Ok_0.0@.len() == 1 && r->Ok_0.1@.len() == 1
            && r->Ok_0.0@[0].sampling_type == (TimeSamplingType {
            num_samples_per_cycle: 1,
            time_per_cycle: DEFAULT_TIME_PER_CYCLE_BITS,
        }) && r->Ok_0.0@[0].samples@ == seq![0u64] && r->Ok_0.1@[0] == 0i64,
        data.size != 0 && data.size > reader@.len() ==> r is Err && r->Err_0
            == OgawaError::ParsingError(ParsingError::InvalidAlembicFile),
        data.size != 0 && data.size <= reader@.len() && data.position + 8 + data.size
            > reader@.len() ==> r is Err && r->Err_0 == OgawaError::IoError,
        data.size != 0 && data.size <= reader@.len() && data.position + 8 + data.size
            <= reader@.len() ==> {
            let payload = reader@.subrange(data.position + 8, data.position + 8 + data.size);
            match spec_time_samplings_from(payload, 0) {
                Ok(models) => r is Ok && spec_samplings_match(r->Ok_0.0@, r->Ok_0.1@, models),
                Err(e) => r is Err && r->Err_0 == e,
            }
        },
{
    let mut out_samplings: Vec<TimeSampling> = Vec::new();
    let mut out_max: Vec<i64> = Vec::new();
    if data.size == 0 {
        let mut samples: Vec<u64> = Vec::new();
        samples.push(0);
        out_samplings.push(
            TimeSampling {
                sampling_type: TimeSamplingType {
                    num_samples_per_cycle: 1,
                    time_per_cycle: DEFAULT_TIME_PER_CYCLE_BITS,
                },
                samples,
            },
        );
        out_max.push(0);
        return Ok((out_samplings, out_max));
    }
    let buf = match data.read(0, data.size, reader) {
        Ok(b) => b,
        Err(e) => {
            return Err(e);
        },
    };
    let ghost whole = buf@;
    let size = buf.len();
    let mut pos: usize = 0;
    loop
        invariant
            pos <= size,
            size == whole.len(),
            buf@ == whole,
            data.size != 0,
            data.size <= reader@.len(),
            data.position + 8 + data.size <= reader@.len(),
            size == data.size,
            whole == reader@.subrange(data.position + 8, data.position + 8 + data.size),
            out_samplings@.len() == out_max@.len(),
            match spec_time_samplings_from(whole, pos as int) {
                Ok(rest) => {
                    let full = spec_time_samplings_from(whole, 0);
                    &&& full is Ok
                    &&& full->Ok_0.len() == out_samplings@.len() + rest.len()
                    &&& spec_samplings_match(
                        out_samplings@,
                        out_max@,
                        full->Ok_0.take(out_samplings@.len() as int),
                    )
                    &&& full->Ok_0.skip(out_samplings@.len() as int) == rest
                },
                Err(e) => spec_time_samplings_from(whole, 0) == Err::<
                    Seq<(u32, u32, u64, Seq<u64>)>,
                    OgawaError,
                >(e),
            },
        decreases size - pos,
    {
        if pos == size {
            proof {
                let full = spec_time_samplings_from(whole, 0);
                assert(full->Ok_0.take(out_samplings@.len() as int) =~= full->Ok_0);
            }
            return Ok((out_samplings, out_max));
        }
        if size - pos < 16 {
            return Err(OgawaError::IoError);
        }
        let max_sample = crate::endian::le_u32_at(&buf, pos);
        let tpc = crate::endian::le_u64_at(&buf, pos + 4);
        let nspc = crate::endian::le_u32_at(&buf, pos + 12);
        let need: u64 = 8 * (nspc as u64);
        if ((size - pos - 16) as u64) < need {
            return Err(OgawaError::ParsingError(ParsingError::InvalidAlembicFile));
        }
        let samples = read_u64s_vec(&buf, pos + 16, nspc as usize);
        let sampling_type = if tpc == ACYCLIC_TIME_PER_CYCLE_BITS {
            TimeSamplingType {
                num_samples_per_cycle: ACYCLIC_NUM_SAMPLES,
                time_per_cycle: ACYCLIC_TIME_PER_CYCLE_BITS,
            }
        } else {
            TimeSamplingType { num_samples_per_cycle: nspc, time_per_cycle: tpc }
        };
        let ghost old_done = out_samplings@.len() as int;
        out_samplings.push(TimeSampling { sampling_type, samples });
        out_max.push(max_sample as i64);
        pos = pos + 16 + 8 * (nspc as usize);
        proof {
            let full = spec_time_samplings_from(whole, 0);
            match spec_time_samplings_from(whole, pos as int) {
                Ok(rest) => {
                    assert(full->Ok_0.take(old_done + 1) =~= full->Ok_0.take(old_done).push(
                        full->Ok_0[old_done],
                    ));
                    assert(full->Ok_0.skip(old_done)[0] == full->Ok_0[old_done]);
                    assert(full->Ok_0.skip(old_done).skip(1) =~= full->Ok_0.skip(old_done + 1));
                },
                Err(_) => {},
            }
        }
    }
}

/// Reads `count` little-endian u64 values from `buf` starting at `start`.
fn read_u64s_vec(buf: &Vec<u8>, start: usize, count: usize) -> (r: Vec<u64>)
    requires
        start + 8 * count <= buf@.len(),
    ensures
        r@ == Seq::new(count as nat, |i: int| spec_u64_at(buf@, start + 8 * i)),
{
    let _n = buf.len();
    let mut out: Vec<u64> = Vec::new();
    let mut i: usize = 0;
    while i < count
        invariant
            i <= count,
            start + 8 * count <= buf@.len(),
            buf@.len() <= usize::MAX,
            out@ == Seq::new(i as nat, |j: int| spec_u64_at(buf@, start + 8 * j)),
        decreases count - i,
    {
        out.push(crate::endian::le_u64_at(buf, start + 8 * i));
        i = i + 1;
        proof {
            assert(out@ =~= Seq::new(i as nat, |j: int| spec_u64_at(buf@, start + 8 * j)));
        }
    }
    out
}

} // verus!
