use vstd::prelude::*;

verus! {

/// Failures of the raw ICMP transport.
#[derive(Debug, Clone, Copy, PartialEq, Eq, Structural)]
pub enum SocketError {
    /// No datagram arrived within the receive timeout.
    TimedOut,
    /// An OS call failed; holds the OS error code.
    IoError(i32),
    /// The readiness wait reported something other than "ready to read";
    /// holds the reported event bits.
    PollError(i32),
}

/// A raw ICMP socket descriptor with its receive timeout in milliseconds.
#[derive(Debug)]
pub struct SocketIcmp {
    fd: i32,
    timeout: i32,
}

impl SocketIcmp {
    /// Takes the result of the raw-socket creation call: a negative `fd`
    /// is a failure reported with `os_error`.
    pub fn from_descriptor(fd: i32, os_error: i32, timeout: i32) -> (r: Result<SocketIcmp, SocketError>)
        ensures
            fd < 0 ==> r == Err::<SocketIcmp, SocketError>(SocketError::IoError(os_error)),
            fd >= 0 ==> (r matches Ok(s) && s.spec_fd() == fd && s.spec_timeout() == timeout),
    {
        if fd < 0 {
            Err(SocketError::IoError(os_error))
        } else {
            Ok(SocketIcmp { fd, timeout })
        }
    }

    pub closed spec fn spec_fd(&self) -> i32 {
        self.fd
    }

    pub closed spec fn spec_timeout(&self) -> i32 {
        self.timeout
    }

    /// The socket descriptor.
    pub fn fd(&self) -> (r: i32)
        ensures
            r == self.spec_fd(),
    {
        self.fd
    }

    /// The receive timeout in milliseconds.
    pub fn timeout(&self) -> (r: i32)
        ensures
            r == self.spec_timeout(),
    {
        self.timeout
    }

    /// Takes the byte count returned by a send or receive call: a negative
    /// count is a failure reported with `os_error`.
    pub fn transfer_result(count: isize, os_error: i32) -> (r: Result<usize, SocketError>)
        ensures
            count < 0 ==> r == Err::<usize, SocketError>(SocketError::IoError(os_error)),
            count >= 0 ==> r == Ok::<usize, SocketError>(count as usize),
    {
        if count < 0 {
            Err(SocketError::IoError(os_error))
        } else {
            Ok(count as usize)
        }
    }

    /// Takes the result of the readiness wait on the descriptor: `events` is
    /// the number of ready descriptors, `revents` the reported event bits and
    /// `readable` whether those include "ready to read". `Ok` means the
    /// datagram can be read now.
    pub fn readiness(events: i32, revents: i16, readable: bool) -> (r: Result<(), SocketError>)
        ensures
            events == 0 ==> r == Err::<(), SocketError>(SocketError::TimedOut),
            events != 0 && readable ==> r == Ok::<(), SocketError>(()),
            events != 0 && !readable ==> r == Err::<(), SocketError>(
                SocketError::PollError(revents as i32),
            ),
    {
        if events == 0 {
            Err(SocketError::TimedOut)
        } else if readable {
            Ok(())
        } else {
            Err(SocketError::PollError(revents as i32))
        }
    }
}

} // verus!
