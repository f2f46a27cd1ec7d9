//! Firmware delivery pipeline: decode an Intel HEX record stream into a
//! contiguous firmware image, and plan its delivery to a file or to an
//! external device-flashing tool.
//!
//! The pipeline is a straight line: the captured text output of an external
//! object-copy run ([`image::extract_firmware`]) is decoded line by line
//! into records ([`decode::decode`]) whose data payloads are concatenated,
//! in stream order, into one [`image::FirmwareImage`]; a
//! [`dispatch::FlashRequest`] then decides ([`dispatch::plan_dispatch`])
//! whether that image is written to a file or streamed to the flashing
//! tool, with the exact argument lists both external tools are started
//! with. Running the external tools is the caller's part: this crate only
//! consumes their captured outcomes and plans their invocations.

pub mod decode;
pub mod dispatch;
pub mod image;
pub mod record;
