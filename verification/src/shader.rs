use vstd::prelude::*;

verus! {

/// The decision core of shader compilation.  The graphics API reports a
/// compile status flag and, on failure, the length of a diagnostic log;
/// everything that touches the API itself stays with the caller, which
/// hands in the plain values and gets the decision back.

/// Decide the outcome of compiling a shader: a status flag of zero means
/// the compile failed and the diagnostic log is the error, any other flag
/// means the shader handle is good.
pub fn compile_outcome(id: u32, status: i32, log: String) -> (r: Result<u32, String>)
    ensures
        status != 0 ==> r == Ok::<u32, String>(id),
        status == 0 ==> r == Err::<u32, String>(log),
{
    if status == 0 {
        Err(log)
    } else {
        Ok(id)
    }
}

/// A scratch buffer of `len` spaces, sized from the reported log length,
/// for the diagnostic log to be read into.
pub fn create_whitespace_buffer_with_length(len: usize) -> (v: Vec<u8>)
    ensures
        v@.len() == len,
        forall|i: int| 0 <= i < len ==> v@[i] == 32u8,
{
    let mut v: Vec<u8> = Vec::new();
    let mut i: usize = 0;
    while i < len
        invariant
            i <= len,
            v@.len() == i,
            forall|j: int| 0 <= j < i ==> v@[j] == 32u8,
        decreases len - i,
    {
        v.push(32u8);
        i = i + 1;
    }
    v
}

} // verus!
