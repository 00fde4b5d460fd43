use vstd::prelude::*;

verus! {

/// Errors raised by the library and by the services around it.
#[derive(Debug, Clone, Copy, PartialEq, Eq, Structural)]
pub enum UVIError {
    /// The configuration directories could not be used.
    BadDirs,
    /// The camera does not offer the requested control.
    CamControlNotFound,
    /// No camera at this index, or the camera has no preset binding.
    CameraNotFound,
    /// A message was sent to a closed channel.
    AsyncChannelClosed,
    /// A reply channel was dropped without an answer.
    AsyncChannelNoSender,
    /// The preset store reported a failure.
    PresetStoreError,
    /// A device or socket operation failed.
    IoError,
    /// A bounded queue refused a message.
    MPSCSendError,
    /// The bytes are not a JPEG frame that can be repaired.
    BadJpegError,
    /// A Huffman table whose code lengths do not form a prefix code.
    HuffmanBadCodeLength,
    /// The entropy-coded data holds no valid Huffman code at some point.
    HuffmanDecodeError,
}

} // verus!
