use vstd::prelude::*;
use crate::destination::{parse_destination_ssh, stream_target, SshConfig};
use crate::error::TransferError;
use crate::oss::{oss_target, parse_destiontion_oss, OssConfig};

verus! {

/// The backend that a run uses.
#[derive(Debug)]
pub enum Backend {
    Stream(SshConfig),
    ObjectStorage(OssConfig),
}

/// Picks the backend: the stream target where `destination` resolves,
/// else the object-storage record where `oss_destination` resolves, else a
/// usage error that lists the accepted formats.
pub fn select_backend(destination: &str, oss_destination: &str) -> (r: Result<Backend, TransferError>)
    ensures
        stream_target(destination@) is Some ==> r is Ok && (r->Ok_0 matches Backend::Stream(c)
            && Some(c.parts()) == stream_target(destination@)),
        stream_target(destination@) is None && oss_target(oss_destination@) is Some ==> r is Ok
            && (r->Ok_0 matches Backend::ObjectStorage(c) && Some(c.fields()) == oss_target(
            oss_destination@,
        )),
        stream_target(destination@) is None && oss_target(oss_destination@) is None ==> r matches Err(
            TransferError::Configuration(_),
        ),
{
    if let Ok(c) = parse_destination_ssh(destination) {
        return Ok(Backend::Stream(c));
    }
    if let Ok(c) = parse_destiontion_oss(oss_destination) {
        return Ok(Backend::ObjectStorage(c));
    }
    Err(
        TransferError::Configuration(
            String::from_str(
                "no usable destination: give user:password@host:/path for a remote host, or a JSON record {\"oss_bucket\", \"oss_endpoint\", \"key_secret\", \"key_id\", \"destionation\", optional \"override_existing\"} for object storage; either may be base64-encoded",
            ),
        ),
    )
}

} // verus!
