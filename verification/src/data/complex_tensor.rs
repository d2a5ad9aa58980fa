//! Complex tensors: a real and an imaginary part of the same shape.

use super::scaling::{dtype_name, dtype_text};
use super::tensor::{equal_dims, DType, Device, Tensor};
use crate::base::determinism::{count_elements, element_count};
use crate::base::error::CoreError;
use crate::base::validation::{dims_text, format_dims};
use crate::scalar::Scalar;
use crate::text::{concat2, concat3, copy_of, decimal, decimal_digits};
use vstd::prelude::*;
use vstd::string::StringExecFns;

verus! {

/// A tensor of complex numbers.
#[derive(Debug)]
pub struct ComplexTensor {
    pub real: Tensor,
    pub imag: Tensor,
}

/// The name of a place.
pub open spec fn device_text(device: Device) -> Seq<char> {
    match device {
        Device::Cpu => "Cpu"@,
        Device::Cuda(id) => "Cuda(CudaDevice(DeviceId("@ + decimal_digits(id as nat) + ")))"@,
        Device::Metal(id) => "Metal(MetalDevice(DeviceId("@ + decimal_digits(id as nat) + ")))"@,
    }
}

/// The name of a place.
pub fn device_name(device: Device) -> (result: String)
    ensures
        result@ == device_text(device),
{
    match device {
        Device::Cpu => copy_of("Cpu"),
        Device::Cuda(id) => {
            let number = decimal(id as u64);
            concat3("Cuda(CudaDevice(DeviceId(", number.as_str(), ")))")
        },
        Device::Metal(id) => {
            let number = decimal(id as u64);
            concat3("Metal(MetalDevice(DeviceId(", number.as_str(), ")))")
        },
    }
}

/// Why two tensors are not the parts of a complex one; `None` where they are.
pub open spec fn parts_fault(re: Tensor, im: Tensor) -> Option<Seq<char>> {
    if re.dims@ != im.dims@ {
        Some(
            "Shape mismatch: real "@ + dims_text(re.dims@) + " vs imag "@ + dims_text(
                im.dims@,
            ),
        )
    } else if re.device != im.device {
        Some(
            "Device mismatch: real "@ + device_text(re.device) + " vs imag "@ + device_text(
                im.device,
            ),
        )
    } else if re.dtype != im.dtype {
        Some(
            "DType mismatch: real "@ + dtype_text(re.dtype) + " vs imag "@ + dtype_text(
                im.dtype,
            ),
        )
    } else {
        None
    }
}

fn mismatch(kind: &str, re: &str, im: &str) -> (result: CoreError)
    ensures
        result.says(kind@ + " mismatch: real "@ + re@ + " vs imag "@ + im@),
{
    let mut message = concat2(kind, " mismatch: real ");
    message.append(re);
    message.append(" vs imag ");
    message.append(im);
    CoreError::Msg(message)
}

/// The values with their signs flipped.
pub open spec fn flipped_values(values: Seq<Scalar>) -> Seq<Scalar> {
    values.map_values(|v: Scalar| v.flipped())
}

/// A tensor of the same make with other values.
pub open spec fn with_values(t: Tensor, values: Seq<Scalar>, result: Tensor) -> bool {
    &&& result.dims@ == t.dims@
    &&& result.values@ == values
    &&& result.dtype == t.dtype
    &&& result.device == t.device
}

/// The values with their signs flipped.
pub fn negated_values(values: &Vec<Scalar>) -> (result: Vec<Scalar>)
    ensures
        result@ == flipped_values(values@),
{
    let mut result: Vec<Scalar> = Vec::new();
    let mut i: usize = 0;
    while i < values.len()
        invariant
            i <= values@.len(),
            result@ == flipped_values(values@.take(i as int)),
        decreases values@.len() - i,
    {
        proof {
            assert(values@.take(i + 1) == values@.take(i as int).push(values@[i as int]));
        }
        result.push(values[i].negated());
        i += 1;
    }
    proof {
        assert(values@.take(values@.len() as int) == values@);
    }
    result
}

/// The tensor with the signs of its values flipped.
pub fn negated_tensor(t: &Tensor) -> (result: Tensor)
    ensures
        with_values(*t, flipped_values(t.values@), result),
{
    Tensor {
        dims: t.dims.clone(),
        values: negated_values(&t.values),
        dtype: t.dtype,
        device: t.device,
    }
}

/// As many zeros as there are values.
pub open spec fn zeros_for(values: Seq<Scalar>) -> Seq<Scalar> {
    values.map_values(|v: Scalar| Scalar { bits: 0 })
}

fn zeros_like(t: &Tensor) -> (result: Tensor)
    ensures
        with_values(*t, zeros_for(t.values@), result),
{
    let mut values: Vec<Scalar> = Vec::new();
    let mut i: usize = 0;
    while i < t.values.len()
        invariant
            i <= t.values@.len(),
            values@ == zeros_for(t.values@.take(i as int)),
        decreases t.values@.len() - i,
    {
        values.push(Scalar::zero());
        proof {
            assert(zeros_for(t.values@.take(i + 1)) == zeros_for(t.values@.take(i as int)).push(
                Scalar { bits: 0 },
            ));
        }
        i += 1;
    }
    proof {
        assert(t.values@.take(t.values@.len() as int) == t.values@);
    }
    Tensor { dims: t.dims.clone(), values, dtype: t.dtype, device: t.device }
}

impl ComplexTensor {
    /// Both parts hold as many values as their dimensions ask for.
    pub open spec fn wf(&self) -> bool {
        self.real.wf() && self.imag.wf()
    }

    /// The complex tensor of two parts with the same shape, place and element
    /// type.
    pub fn new(re: Tensor, im: Tensor) -> (result: Result<ComplexTensor, CoreError>)
        ensures
            result is Ok <==> parts_fault(re, im) is None,
            result matches Ok(z) ==> z.real == re && z.imag == im,
            result matches Err(e) ==> e.says(parts_fault(re, im)->0),
    {
        proof {
            reveal_strlit("Shape");
            reveal_strlit("Device");
            reveal_strlit("DType");
            reveal_strlit(" mismatch: real ");
            reveal_strlit("Shape mismatch: real ");
            reveal_strlit("Device mismatch: real ");
            reveal_strlit("DType mismatch: real ");
            assert("Shape"@ + " mismatch: real "@ =~= "Shape mismatch: real "@);
            assert("Device"@ + " mismatch: real "@ =~= "Device mismatch: real "@);
            assert("DType"@ + " mismatch: real "@ =~= "DType mismatch: real "@);
        }
        if !equal_dims(&re.dims, &im.dims) {
            let left = format_dims(re.dims.as_slice());
            let right = format_dims(im.dims.as_slice());
            return Err(mismatch("Shape", left.as_str(), right.as_str()));
        }
        if re.device != im.device {
            let left = device_name(re.device);
            let right = device_name(im.device);
            return Err(mismatch("Device", left.as_str(), right.as_str()));
        }
        if re.dtype != im.dtype {
            return Err(mismatch("DType", dtype_name(re.dtype), dtype_name(im.dtype)));
        }
        Ok(ComplexTensor { real: re, imag: im })
    }

    /// The complex tensor of two parts that are known to match.
    pub fn new_unchecked(re: Tensor, im: Tensor) -> (result: ComplexTensor)
        ensures
            result.real == re,
            result.imag == im,
    {
        ComplexTensor { real: re, imag: im }
    }

    /// The complex tensor of a pair of parts with the same shape, place and
    /// element type.
    pub fn from_pair(pair: (Tensor, Tensor)) -> (result: Result<ComplexTensor, CoreError>)
        ensures
            result is Ok <==> parts_fault(pair.0, pair.1) is None,
            result matches Ok(z) ==> z.real == pair.0 && z.imag == pair.1,
            result matches Err(e) ==> e.says(parts_fault(pair.0, pair.1)->0),
    {
        ComplexTensor::new(pair.0, pair.1)
    }

    /// A tensor of zeros.
    pub fn zeros(dims: &Vec<usize>, dtype: DType, device: Device) -> (result: ComplexTensor)
        requires
            element_count(dims@) <= usize::MAX,
        ensures
            result.wf(),
            result.real.dims@ == dims@,
            result.real.dtype == dtype,
            result.real.device == device,
            forall|i: int|
                0 <= i < result.real.values@.len() ==> #[trigger] result.real.values@[i] == (Scalar {
                    bits: 0,
                }),
            with_values(result.real, result.real.values@, result.imag),
    {
        let count: usize = count_elements(dims);
        let mut values: Vec<Scalar> = Vec::new();
        while values.len() < count
            invariant
                values@.len() <= count,
                forall|i: int|
                    0 <= i < values@.len() ==> #[trigger] values@[i] == (Scalar { bits: 0 }),
            decreases count - values@.len(),
        {
            values.push(Scalar::zero());
        }
        let re = Tensor { dims: dims.clone(), values, dtype, device };
        let im = zeros_like(&re);
        proof {
            assert(zeros_for(re.values@) == re.values@);
        }
        ComplexTensor { real: re, imag: im }
    }

    /// The lengths of the sides, the same for both parts.
    pub fn shape(&self) -> (result: &Vec<usize>)
        ensures
            result@ == self.real.dims@,
    {
        &self.real.dims
    }

    /// A real tensor, with an imaginary part of zeros.
    pub fn from_real(re: Tensor) -> (result: ComplexTensor)
        ensures
            result.real == re,
            with_values(re, zeros_for(re.values@), result.imag),
    {
        let im = zeros_like(&re);
        ComplexTensor { real: re, imag: im }
    }

    /// An imaginary tensor, with a real part of zeros.
    pub fn from_imag(im: Tensor) -> (result: ComplexTensor)
        ensures
            result.imag == im,
            with_values(im, zeros_for(im.values@), result.real),
    {
        let re = zeros_like(&im);
        ComplexTensor { real: re, imag: im }
    }

    /// Both parts.
    pub fn as_pair(&self) -> (result: (&Tensor, &Tensor))
        ensures
            *result.0 == self.real,
            *result.1 == self.imag,
    {
        (&self.real, &self.imag)
    }

    /// Both parts, given away.
    pub fn into_pair(self) -> (result: (Tensor, Tensor))
        ensures
            result == (self.real, self.imag),
    {
        (self.real, self.imag)
    }

    /// Copies of both parts.
    pub fn to_pair(&self) -> (result: (Tensor, Tensor))
        ensures
            result.0.same_as(self.real),
            result.1.same_as(self.imag),
    {
        (self.real.copied(), self.imag.copied())
    }

    pub fn dtype(&self) -> (result: DType)
        ensures
            result == self.real.dtype,
    {
        self.real.dtype
    }

    pub fn device(&self) -> (result: Device)
        ensures
            result == self.real.device,
    {
        self.real.device
    }

    /// The complex conjugate.
    pub fn conj(&self) -> (result: ComplexTensor)
        ensures
            result.real.same_as(self.real),
            with_values(self.imag, flipped_values(self.imag.values@), result.imag),
    {
        ComplexTensor { real: self.real.copied(), imag: negated_tensor(&self.imag) }
    }

    /// The complex conjugate.
    pub fn into_conj(self) -> (result: ComplexTensor)
        ensures
            result.real == self.real,
            with_values(self.imag, flipped_values(self.imag.values@), result.imag),
    {
        let im = negated_tensor(&self.imag);
        ComplexTensor { real: self.real, imag: im }
    }

    /// The negated tensor.
    pub fn neg(&self) -> (result: ComplexTensor)
        ensures
            with_values(self.real, flipped_values(self.real.values@), result.real),
            with_values(self.imag, flipped_values(self.imag.values@), result.imag),
    {
        ComplexTensor { real: negated_tensor(&self.real), imag: negated_tensor(&self.imag) }
    }
}

/// Conjugating twice gives the tensor back.
pub proof fn conjugation_is_an_involution(values: Seq<Scalar>)
    ensures
        flipped_values(flipped_values(values)) == values,
{
    assert forall|i: int| 0 <= i < values.len() implies flipped_values(flipped_values(values))[i]
        == values[i] by {
        crate::scalar::negation_is_an_involution(values[i]);
    }
}

/// Both parts as doubles. Values are held as doubles in any case; only the element
/// type changes.
pub fn as_complex_f64(value: &ComplexTensor) -> (result: ComplexTensor)
    ensures
        result.real.dims@ == value.real.dims@,
        result.real.values@ == value.real.values@,
        result.real.device == value.real.device,
        result.real.dtype == DType::F64,
        result.imag.dims@ == value.imag.dims@,
        result.imag.values@ == value.imag.values@,
        result.imag.device == value.imag.device,
        result.imag.dtype == DType::F64,
{
    let mut re = value.real.copied();
    let mut im = value.imag.copied();
    re.dtype = DType::F64;
    im.dtype = DType::F64;
    ComplexTensor { real: re, imag: im }
}

/// Accepts two operands in the same place.
pub fn ensure_same_device(
    lhs_device: Device,
    lhs_name: &str,
    rhs_device: Device,
    rhs_name: &str,
) -> (result: Result<(), CoreError>)
    ensures
        result is Ok <==> lhs_device == rhs_device,
        result matches Err(e) ==> e.says(
            "Device mismatch between "@ + lhs_name@ + " and "@ + rhs_name@,
        ),
{
    if lhs_device != rhs_device {
        let mut message = concat3("Device mismatch between ", lhs_name, " and ");
        message.append(rhs_name);
        return Err(CoreError::Msg(message));
    }
    Ok(())
}

/// Why an angle cannot be taken of two tensors; `None` where it can.
pub open spec fn atan2_fault(y: Tensor, x: Tensor) -> Option<Seq<char>> {
    if y.device != x.device {
        Some("Device mismatch between y and x"@)
    } else if y.dims@ != x.dims@ {
        Some("Shape mismatch between y "@ + dims_text(y.dims@) + " and x "@ + dims_text(x.dims@))
    } else if y.dtype != x.dtype {
        Some("DType mismatch between y "@ + dtype_text(y.dtype) + " and x "@ + dtype_text(x.dtype))
    } else if y.dtype != DType::F32 && y.dtype != DType::F64 {
        if y.device == Device::Cpu {
            Some(
                "atan2_tensor supports matching F32/F64 tensors, got "@ + dtype_text(y.dtype)
                    + " and "@ + dtype_text(x.dtype),
            )
        } else {
            Some("atan2_tensor supports only F32/F64 tensors, got "@ + dtype_text(y.dtype))
        }
    } else {
        None
    }
}

/// Accepts operands of an element-wise angle: same place, shape and element type,
/// in single or double precision.
pub fn check_atan2_operands(y: &Tensor, x: &Tensor) -> (result: Result<(), CoreError>)
    ensures
        result is Ok <==> atan2_fault(*y, *x) is None,
        result matches Err(e) ==> e.says(atan2_fault(*y, *x)->0),
{
    proof {
        reveal_strlit("Device mismatch between ");
        reveal_strlit("y");
        reveal_strlit(" and ");
        reveal_strlit("x");
        reveal_strlit("Device mismatch between y and x");
        assert("Device mismatch between "@ + "y"@ + " and "@ + "x"@
            =~= "Device mismatch between y and x"@);
    }
    if let Err(e) = ensure_same_device(y.device, "y", x.device, "x") {
        return Err(e);
    }
    if !equal_dims(&y.dims, &x.dims) {
        let left = format_dims(y.dims.as_slice());
        let right = format_dims(x.dims.as_slice());
        let mut message = concat3("Shape mismatch between y ", left.as_str(), " and x ");
        message.append(right.as_str());
        return Err(CoreError::Msg(message));
    }
    if y.dtype != x.dtype {
        let mut message = concat3("DType mismatch between y ", dtype_name(y.dtype), " and x ");
        message.append(dtype_name(x.dtype));
        return Err(CoreError::Msg(message));
    }
    if y.dtype != DType::F32 && y.dtype != DType::F64 {
        if y.device == Device::Cpu {
            let mut message = concat3(
                "atan2_tensor supports matching F32/F64 tensors, got ",
                dtype_name(y.dtype),
                " and ",
            );
            message.append(dtype_name(x.dtype));
            return Err(CoreError::Msg(message));
        }
        return Err(
            CoreError::Msg(
                concat2("atan2_tensor supports only F32/F64 tensors, got ", dtype_name(y.dtype)),
            ),
        );
    }
    Ok(())
}

/// Negation turns the sign of every value in its place, and a part without values of its
/// own is zero everywhere.
pub proof fn parts_change_value_by_value(values: Seq<Scalar>, i: int)
    requires
        0 <= i < values.len(),
    ensures
        flipped_values(values).len() == values.len(),
        flipped_values(values)[i] == values[i].flipped(),
        flipped_values(values)[i].negative() != values[i].negative(),
        flipped_values(values)[i].magnitude() == values[i].magnitude(),
        zeros_for(values).len() == values.len(),
        zeros_for(values)[i].bits == 0,
{
}

/// Two tensors are the parts of one exactly where they agree in shape, place and element
/// type, and have an angle exactly where they do and are single or double precision.
pub proof fn parts_agree_in_shape_place_and_type(a: Tensor, b: Tensor)
    ensures
        parts_fault(a, b) is None <==> a.dims@ == b.dims@ && a.device == b.device && a.dtype
            == b.dtype,
        atan2_fault(a, b) is None <==> a.dims@ == b.dims@ && a.device == b.device && a.dtype
            == b.dtype && (a.dtype is F32 || a.dtype is F64),
{
}

} // verus!
