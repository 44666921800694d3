use vstd::prelude::*;
use crate::error::{Error, ErrorKind, Result};
use crate::util::binary::is_error;

verus! {

/// What the connection reading `protocol::packet` packets does with the
/// length it read first: -1 (no length could be read) and 0 are "EOF", 10240
/// and more are "Out of limit", both of kind `Other`; any other length is how
/// many bytes follow. A length below -1 is not accepted: the buffer it asks
/// for cannot be sized.
pub fn body_length(len: isize) -> (res: Result<usize>)
    requires
        -1 <= len <= i32::MAX,
    ensures
        (len == -1 || len == 0) ==> (res matches Err(e) && is_error(e, ErrorKind::Other, "EOF"@)),
        len >= 10240 ==> (res matches Err(e) && is_error(e, ErrorKind::Other, "Out of limit"@)),
        0 < len < 10240 ==> res == Ok::<usize, Error>(len as usize),
{
    if len == -1 || len == 0 {
        return Err(Error::new(ErrorKind::Other, "EOF"));
    }
    if len >= 10240 {
        return Err(Error::new(ErrorKind::Other, "Out of limit"));
    }
    Ok(len as usize)
}

} // verus!
