//! The tensor-backend probe: which probe to run, on which device, and how the
//! matrix product's result shape is judged.
use vstd::prelude::*;
use crate::text::{append_zero_padded, chars_equal, chars_of, decimal, zero_padded};

verus! {

/// Arguments of the tensor-backend probe.
pub struct TestArgs {
    /// Run the probe on the CPU instead of CUDA.
    pub cpu: bool,
    /// CUDA device index to use.
    pub cuda_device: usize,
    /// Probe to run (`basic` or `sam-preprocess`).
    pub case: String,
}

/// The device a probe runs on.
#[derive(Debug, Clone, Copy, PartialEq, Eq)]
pub enum DeviceChoice {
    Cpu,
    Cuda(usize),
}

/// The probes there are.
#[derive(Debug, Clone, Copy, PartialEq, Eq)]
pub enum TestCase {
    /// A random matrix product.
    Basic,
    /// The image-normalisation steps of SAM's preprocessing.
    SamPreprocess,
}

impl TestArgs {
    /// The device the probe runs on: the CPU when asked for, else CUDA device `cuda_device`.
    pub fn device(&self) -> (d: DeviceChoice)
        ensures
            d == (if self.cpu {
                DeviceChoice::Cpu
            } else {
                DeviceChoice::Cuda(self.cuda_device)
            }),
    {
        if self.cpu {
            DeviceChoice::Cpu
        } else {
            DeviceChoice::Cuda(self.cuda_device)
        }
    }
}

/// The probe named `case`, or the message that refuses an unknown name.
pub fn select_test_case(case: &str) -> (r: Result<TestCase, String>)
    ensures
        case@ == "basic"@ ==> r == Ok::<TestCase, String>(TestCase::Basic),
        case@ == "sam-preprocess"@ ==> r == Ok::<TestCase, String>(TestCase::SamPreprocess),
        case@ != "basic"@ && case@ != "sam-preprocess"@ ==> (r matches Err(m) && m@
            == "unknown test case: "@ + case@),
{
    proof {
        reveal_strlit("basic");
        reveal_strlit("sam-preprocess");
        assert("basic"@.len() != "sam-preprocess"@.len());
    }
    let given = chars_of(case);
    if chars_equal(&given, &chars_of("basic")) {
        Ok(TestCase::Basic)
    } else if chars_equal(&given, &chars_of("sam-preprocess")) {
        Ok(TestCase::SamPreprocess)
    } else {
        let mut m = String::from_str("unknown test case: ");
        m.append(case);
        Err(m)
    }
}

/// Judges the shape `(m, n)` of the probe's matrix product, which must be `(2, 4)`.
pub fn check_matmul_shape(m: usize, n: usize) -> (r: Result<(), String>)
    ensures
        r is Ok <==> (m == 2 && n == 4),
        r matches Err(msg) ==> msg@ == "unexpected output shape: ("@ + decimal(m as nat) + ", "@
            + decimal(n as nat) + ")"@,
{
    if m != 2 || n != 4 {
        let mut msg = String::from_str("unexpected output shape: (");
        append_zero_padded(&mut msg, m, 0);
        msg.append(", ");
        append_zero_padded(&mut msg, n, 0);
        msg.append(")");
        proof {
            assert(zero_padded(m as nat, 0) == decimal(m as nat));
            assert(zero_padded(n as nat, 0) == decimal(n as nat));
        }
        Err(msg)
    } else {
        Ok(())
    }
}

/// Padding that brings an image extent up to SAM's 1024-pixel input size.
pub fn sam_padding(extent: usize) -> (pad: usize)
    requires
        extent <= 1024,
    ensures
        pad == 1024 - extent,
{
    1024 - extent
}

} // verus!
