//! What this library takes on trust from code that was not verified.

use vstd::prelude::*;
use vstd::string::StringSliceAdditionalSpecFns;
use vstd::utf8::valid_utf8;

verus! {

/// `num::complex::Complex<T>`: a pair of public fields, the real part `re` and
/// the imaginary part `im`.
#[verifier::external_type_specification]
#[verifier::reject_recursive_types(T)]
pub struct ExComplex<T>(num::complex::Complex<T>);

/// `Complex::new` puts its first argument into `re` and its second into `im`.
pub assume_specification<T>[ num::complex::Complex::<T>::new ](re: T, im: T) -> (c:
    num::complex::Complex<T>)
    ensures
        c.re == re,
        c.im == im,
;

/// `core::str::Utf8Error`, of which nothing is read.
#[verifier::external_type_specification]
#[verifier::external_body]
pub struct ExUtf8Error(core::str::Utf8Error);

/// `core::str::from_utf8` succeeds exactly on well-formed UTF-8, and the string
/// slice that it returns is made of the bytes it was given.
pub assume_specification<'a>[ core::str::from_utf8 ](v: &'a [u8]) -> (r: Result<
    &'a str,
    core::str::Utf8Error,
>)
    ensures
        r is Ok <==> valid_utf8(v@),
        r matches Ok(s) ==> s.spec_bytes() == v@,
;

} // verus!
