//! The syscall dispatch table: which Linux syscalls the simulator emulates,
//! which it lets the kernel run, which it refuses, and which must never
//! reach it because the shim answers them first. Numbers are those of
//! x86-64 Linux, plus the simulator's own three above that range.

use vstd::prelude::*;

verus! {

/// The simulator's own syscall that resolves a host name to an IPv4 address.
pub const SYS_SHADOW_HOSTNAME_TO_ADDR_IPV4: i64 = 1003;

/// The simulator's own syscall that sets up a process's memory manager.
pub const SYS_SHADOW_INIT_MEMORY_MANAGER: i64 = 1004;

/// The simulator's own syscall that yields the current thread.
pub const SYS_SHADOW_YIELD: i64 = 1005;

/// The error number for a syscall that is not implemented.
pub const ENOSYS: i32 = 38;

/// The syscalls that the simulator emulates, by number, with the name of their handler.
pub open spec fn emulated_syscall(n: i64) -> Option<Seq<char>> {
    match n {
        0 => Some("read"@),
        1 => Some("write"@),
        2 => Some("open"@),
        3 => Some("close"@),
        5 => Some("fstat"@),
        7 => Some("poll"@),
        8 => Some("lseek"@),
        9 => Some("mmap"@),
        10 => Some("mprotect"@),
        11 => Some("munmap"@),
        12 => Some("brk"@),
        13 => Some("rt_sigaction"@),
        14 => Some("rt_sigprocmask"@),
        16 => Some("ioctl"@),
        17 => Some("pread64"@),
        18 => Some("pwrite64"@),
        19 => Some("readv"@),
        20 => Some("writev"@),
        22 => Some("pipe"@),
        23 => Some("select"@),
        25 => Some("mremap"@),
        32 => Some("dup"@),
        33 => Some("dup2"@),
        35 => Some("nanosleep"@),
        36 => Some("getitimer"@),
        38 => Some("setitimer"@),
        39 => Some("getpid"@),
        41 => Some("socket"@),
        42 => Some("connect"@),
        43 => Some("accept"@),
        44 => Some("sendto"@),
        45 => Some("recvfrom"@),
        46 => Some("sendmsg"@),
        47 => Some("recvmsg"@),
        48 => Some("shutdown"@),
        49 => Some("bind"@),
        50 => Some("listen"@),
        51 => Some("getsockname"@),
        52 => Some("getpeername"@),
        53 => Some("socketpair"@),
        54 => Some("setsockopt"@),
        55 => Some("getsockopt"@),
        56 => Some("clone"@),
        57 => Some("fork"@),
        58 => Some("vfork"@),
        59 => Some("execve"@),
        61 => Some("wait4"@),
        62 => Some("kill"@),
        63 => Some("uname"@),
        72 => Some("fcntl"@),
        73 => Some("flock"@),
        74 => Some("fsync"@),
        75 => Some("fdatasync"@),
        77 => Some("ftruncate"@),
        78 => Some("getdents"@),
        85 => Some("creat"@),
        91 => Some("fchmod"@),
        93 => Some("fchown"@),
        99 => Some("sysinfo"@),
        109 => Some("setpgid"@),
        110 => Some("getppid"@),
        111 => Some("getpgrp"@),
        112 => Some("setsid"@),
        121 => Some("getpgid"@),
        124 => Some("getsid"@),
        131 => Some("sigaltstack"@),
        138 => Some("fstatfs"@),
        157 => Some("prctl"@),
        186 => Some("gettid"@),
        187 => Some("readahead"@),
        190 => Some("fsetxattr"@),
        193 => Some("fgetxattr"@),
        196 => Some("flistxattr"@),
        199 => Some("fremovexattr"@),
        200 => Some("tkill"@),
        202 => Some("futex"@),
        203 => Some("sched_setaffinity"@),
        204 => Some("sched_getaffinity"@),
        213 => Some("epoll_create"@),
        217 => Some("getdents64"@),
        218 => Some("set_tid_address"@),
        221 => Some("fadvise64"@),
        229 => Some("clock_getres"@),
        230 => Some("clock_nanosleep"@),
        231 => Some("exit_group"@),
        232 => Some("epoll_wait"@),
        233 => Some("epoll_ctl"@),
        234 => Some("tgkill"@),
        247 => Some("waitid"@),
        257 => Some("openat"@),
        258 => Some("mkdirat"@),
        259 => Some("mknodat"@),
        260 => Some("fchownat"@),
        261 => Some("futimesat"@),
        262 => Some("newfstatat"@),
        263 => Some("unlinkat"@),
        264 => Some("renameat"@),
        265 => Some("linkat"@),
        266 => Some("symlinkat"@),
        267 => Some("readlinkat"@),
        268 => Some("fchmodat"@),
        269 => Some("faccessat"@),
        270 => Some("pselect6"@),
        271 => Some("ppoll"@),
        273 => Some("set_robust_list"@),
        274 => Some("get_robust_list"@),
        277 => Some("sync_file_range"@),
        280 => Some("utimensat"@),
        281 => Some("epoll_pwait"@),
        283 => Some("timerfd_create"@),
        284 => Some("eventfd"@),
        285 => Some("fallocate"@),
        286 => Some("timerfd_settime"@),
        287 => Some("timerfd_gettime"@),
        288 => Some("accept4"@),
        290 => Some("eventfd2"@),
        291 => Some("epoll_create1"@),
        292 => Some("dup3"@),
        293 => Some("pipe2"@),
        295 => Some("preadv"@),
        296 => Some("pwritev"@),
        302 => Some("prlimit64"@),
        306 => Some("syncfs"@),
        316 => Some("renameat2"@),
        318 => Some("getrandom"@),
        322 => Some("execveat"@),
        327 => Some("preadv2"@),
        328 => Some("pwritev2"@),
        332 => Some("statx"@),
        334 => Some("rseq"@),
        435 => Some("clone3"@),
        441 => Some("epoll_pwait2"@),
        1003 => Some("shadow_hostname_to_addr_ipv4"@),
        1004 => Some("shadow_init_memory_manager"@),
        1005 => Some("shadow_yield"@),
        _ => None,
    }
}

fn emulated_syscall_name(n: i64) -> (r: Option<&'static str>)
    ensures
        match r {
            Some(name) => emulated_syscall(n) == Some(name@),
            None => emulated_syscall(n) is None,
        },
{
    match n {
        0 => Some("read"),
        1 => Some("write"),
        2 => Some("open"),
        3 => Some("close"),
        5 => Some("fstat"),
        7 => Some("poll"),
        8 => Some("lseek"),
        9 => Some("mmap"),
        10 => Some("mprotect"),
        11 => Some("munmap"),
        12 => Some("brk"),
        13 => Some("rt_sigaction"),
        14 => Some("rt_sigprocmask"),
        16 => Some("ioctl"),
        17 => Some("pread64"),
        18 => Some("pwrite64"),
        19 => Some("readv"),
        20 => Some("writev"),
        22 => Some("pipe"),
        23 => Some("select"),
        25 => Some("mremap"),
        32 => Some("dup"),
        33 => Some("dup2"),
        35 => Some("nanosleep"),
        36 => Some("getitimer"),
        38 => Some("setitimer"),
        39 => Some("getpid"),
        41 => Some("socket"),
        42 => Some("connect"),
        43 => Some("accept"),
        44 => Some("sendto"),
        45 => Some("recvfrom"),
        46 => Some("sendmsg"),
        47 => Some("recvmsg"),
        48 => Some("shutdown"),
        49 => Some("bind"),
        50 => Some("listen"),
        51 => Some("getsockname"),
        52 => Some("getpeername"),
        53 => Some("socketpair"),
        54 => Some("setsockopt"),
        55 => Some("getsockopt"),
        56 => Some("clone"),
        57 => Some("fork"),
        58 => Some("vfork"),
        59 => Some("execve"),
        61 => Some("wait4"),
        62 => Some("kill"),
        63 => Some("uname"),
        72 => Some("fcntl"),
        73 => Some("flock"),
        74 => Some("fsync"),
        75 => Some("fdatasync"),
        77 => Some("ftruncate"),
        78 => Some("getdents"),
        85 => Some("creat"),
        91 => Some("fchmod"),
        93 => Some("fchown"),
        99 => Some("sysinfo"),
        109 => Some("setpgid"),
        110 => Some("getppid"),
        111 => Some("getpgrp"),
        112 => Some("setsid"),
        121 => Some("getpgid"),
        124 => Some("getsid"),
        131 => Some("sigaltstack"),
        138 => Some("fstatfs"),
        157 => Some("prctl"),
        186 => Some("gettid"),
        187 => Some("readahead"),
        190 => Some("fsetxattr"),
        193 => Some("fgetxattr"),
        196 => Some("flistxattr"),
        199 => Some("fremovexattr"),
        200 => Some("tkill"),
        202 => Some("futex"),
        203 => Some("sched_setaffinity"),
        204 => Some("sched_getaffinity"),
        213 => Some("epoll_create"),
        217 => Some("getdents64"),
        218 => Some("set_tid_address"),
        221 => Some("fadvise64"),
        229 => Some("clock_getres"),
        230 => Some("clock_nanosleep"),
        231 => Some("exit_group"),
        232 => Some("epoll_wait"),
        233 => Some("epoll_ctl"),
        234 => Some("tgkill"),
        247 => Some("waitid"),
        257 => Some("openat"),
        258 => Some("mkdirat"),
        259 => Some("mknodat"),
        260 => Some("fchownat"),
        261 => Some("futimesat"),
        262 => Some("newfstatat"),
        263 => Some("unlinkat"),
        264 => Some("renameat"),
        265 => Some("linkat"),
        266 => Some("symlinkat"),
        267 => Some("readlinkat"),
        268 => Some("fchmodat"),
        269 => Some("faccessat"),
        270 => Some("pselect6"),
        271 => Some("ppoll"),
        273 => Some("set_robust_list"),
        274 => Some("get_robust_list"),
        277 => Some("sync_file_range"),
        280 => Some("utimensat"),
        281 => Some("epoll_pwait"),
        283 => Some("timerfd_create"),
        284 => Some("eventfd"),
        285 => Some("fallocate"),
        286 => Some("timerfd_settime"),
        287 => Some("timerfd_gettime"),
        288 => Some("accept4"),
        290 => Some("eventfd2"),
        291 => Some("epoll_create1"),
        292 => Some("dup3"),
        293 => Some("pipe2"),
        295 => Some("preadv"),
        296 => Some("pwritev"),
        302 => Some("prlimit64"),
        306 => Some("syncfs"),
        316 => Some("renameat2"),
        318 => Some("getrandom"),
        322 => Some("execveat"),
        327 => Some("preadv2"),
        328 => Some("pwritev2"),
        332 => Some("statx"),
        334 => Some("rseq"),
        435 => Some("clone3"),
        441 => Some("epoll_pwait2"),
        1003 => Some("shadow_hostname_to_addr_ipv4"),
        1004 => Some("shadow_init_memory_manager"),
        1005 => Some("shadow_yield"),
        _ => None,
    }
}

/// The syscalls that the kernel runs natively for the managed process.
pub open spec fn native_syscall(n: i64) -> Option<Seq<char>> {
    match n {
        4 => Some("stat"@),
        6 => Some("lstat"@),
        15 => Some("rt_sigreturn"@),
        21 => Some("access"@),
        28 => Some("madvise"@),
        60 => Some("exit"@),
        76 => Some("truncate"@),
        79 => Some("getcwd"@),
        82 => Some("rename"@),
        83 => Some("mkdir"@),
        84 => Some("rmdir"@),
        86 => Some("link"@),
        87 => Some("unlink"@),
        88 => Some("symlink"@),
        89 => Some("readlink"@),
        90 => Some("chmod"@),
        92 => Some("chown"@),
        94 => Some("lchown"@),
        97 => Some("getrlimit"@),
        102 => Some("getuid"@),
        104 => Some("getgid"@),
        105 => Some("setuid"@),
        106 => Some("setgid"@),
        107 => Some("geteuid"@),
        108 => Some("getegid"@),
        113 => Some("setreuid"@),
        114 => Some("setregid"@),
        115 => Some("getgroups"@),
        117 => Some("setresuid"@),
        118 => Some("getresuid"@),
        119 => Some("setresgid"@),
        120 => Some("getresgid"@),
        122 => Some("setfsuid"@),
        123 => Some("setfsgid"@),
        132 => Some("utime"@),
        133 => Some("mknod"@),
        137 => Some("statfs"@),
        158 => Some("arch_prctl"@),
        160 => Some("setrlimit"@),
        188 => Some("setxattr"@),
        189 => Some("lsetxattr"@),
        191 => Some("getxattr"@),
        192 => Some("lgetxattr"@),
        194 => Some("listxattr"@),
        195 => Some("llistxattr"@),
        197 => Some("removexattr"@),
        198 => Some("lremovexattr"@),
        235 => Some("utimes"@),
        _ => None,
    }
}

fn native_syscall_name(n: i64) -> (r: Option<&'static str>)
    ensures
        match r {
            Some(name) => native_syscall(n) == Some(name@),
            None => native_syscall(n) is None,
        },
{
    match n {
        4 => Some("stat"),
        6 => Some("lstat"),
        15 => Some("rt_sigreturn"),
        21 => Some("access"),
        28 => Some("madvise"),
        60 => Some("exit"),
        76 => Some("truncate"),
        79 => Some("getcwd"),
        82 => Some("rename"),
        83 => Some("mkdir"),
        84 => Some("rmdir"),
        86 => Some("link"),
        87 => Some("unlink"),
        88 => Some("symlink"),
        89 => Some("readlink"),
        90 => Some("chmod"),
        92 => Some("chown"),
        94 => Some("lchown"),
        97 => Some("getrlimit"),
        102 => Some("getuid"),
        104 => Some("getgid"),
        105 => Some("setuid"),
        106 => Some("setgid"),
        107 => Some("geteuid"),
        108 => Some("getegid"),
        113 => Some("setreuid"),
        114 => Some("setregid"),
        115 => Some("getgroups"),
        117 => Some("setresuid"),
        118 => Some("getresuid"),
        119 => Some("setresgid"),
        120 => Some("getresgid"),
        122 => Some("setfsuid"),
        123 => Some("setfsgid"),
        132 => Some("utime"),
        133 => Some("mknod"),
        137 => Some("statfs"),
        158 => Some("arch_prctl"),
        160 => Some("setrlimit"),
        188 => Some("setxattr"),
        189 => Some("lsetxattr"),
        191 => Some("getxattr"),
        192 => Some("lgetxattr"),
        194 => Some("listxattr"),
        195 => Some("llistxattr"),
        197 => Some("removexattr"),
        198 => Some("lremovexattr"),
        235 => Some("utimes"),
        _ => None,
    }
}

/// The syscalls that are refused on purpose, with `ENOSYS`.
pub open spec fn unsupported_syscall(n: i64) -> Option<Seq<char>> {
    match n {
        26 => Some("msync"@),
        40 => Some("sendfile"@),
        80 => Some("chdir"@),
        81 => Some("fchdir"@),
        208 => Some("io_getevents"@),
        275 => Some("splice"@),
        276 => Some("tee"@),
        278 => Some("vmsplice"@),
        299 => Some("recvmmsg"@),
        307 => Some("sendmmsg"@),
        326 => Some("copy_file_range"@),
        _ => None,
    }
}

fn unsupported_syscall_name(n: i64) -> (r: Option<&'static str>)
    ensures
        match r {
            Some(name) => unsupported_syscall(n) == Some(name@),
            None => unsupported_syscall(n) is None,
        },
{
    match n {
        26 => Some("msync"),
        40 => Some("sendfile"),
        80 => Some("chdir"),
        81 => Some("fchdir"),
        208 => Some("io_getevents"),
        275 => Some("splice"),
        276 => Some("tee"),
        278 => Some("vmsplice"),
        299 => Some("recvmmsg"),
        307 => Some("sendmmsg"),
        326 => Some("copy_file_range"),
        _ => None,
    }
}

/// The syscalls that the shim answers and that must never reach the table.
pub open spec fn shim_only_syscall(n: i64) -> Option<Seq<char>> {
    match n {
        24 => Some("sched_yield"@),
        96 => Some("gettimeofday"@),
        201 => Some("time"@),
        228 => Some("clock_gettime"@),
        _ => None,
    }
}

fn shim_only_syscall_name(n: i64) -> (r: Option<&'static str>)
    ensures
        match r {
            Some(name) => shim_only_syscall(n) == Some(name@),
            None => shim_only_syscall(n) is None,
        },
{
    match n {
        24 => Some("sched_yield"),
        96 => Some("gettimeofday"),
        201 => Some("time"),
        228 => Some("clock_gettime"),
        _ => None,
    }
}

/// How a syscall is answered.
#[derive(Clone, Copy, Debug, PartialEq, Eq)]
pub enum SyscallOutcome {
    /// Run the named emulation handler.
    Emulate(&'static str),
    /// Let the kernel execute the syscall.
    Native(&'static str),
    /// Fail with `ENOSYS`: the syscall is refused on purpose.
    Unsupported(&'static str),
    /// Fail with `ENOSYS`: the number is in no table.
    Unmapped,
}

impl SyscallOutcome {
    /// The error number that the syscall fails with, if it fails here.
    pub fn errno(&self) -> (r: Option<i32>)
        ensures
            r == match *self {
                SyscallOutcome::Unsupported(_) | SyscallOutcome::Unmapped => Some(ENOSYS),
                _ => None,
            },
    {
        match self {
            SyscallOutcome::Unsupported(_) | SyscallOutcome::Unmapped => Some(ENOSYS),
            _ => None,
        }
    }
}

/// Looks syscalls up in the dispatch table.
pub struct SyscallHandler {}

impl SyscallHandler {
    pub fn new() -> (r: SyscallHandler) {
        SyscallHandler {  }
    }

    /// How syscall `number` is answered. The four tables are disjoint; a
    /// number in none of them fails with `ENOSYS`. Numbers that the shim
    /// must answer itself are not accepted.
    pub fn syscall(&self, number: i64) -> (r: SyscallOutcome)
        requires
            shim_only_syscall(number) is None,
        ensures
            match r {
                SyscallOutcome::Emulate(name) => emulated_syscall(number) == Some(name@),
                SyscallOutcome::Native(name) => native_syscall(number) == Some(name@),
                SyscallOutcome::Unsupported(name) => unsupported_syscall(number) == Some(name@),
                SyscallOutcome::Unmapped => {
                    &&& emulated_syscall(number) is None
                    &&& native_syscall(number) is None
                    &&& unsupported_syscall(number) is None
                },
            },
    {
        if let Some(name) = emulated_syscall_name(number) {
            return SyscallOutcome::Emulate(name);
        }
        if let Some(name) = unsupported_syscall_name(number) {
            return SyscallOutcome::Unsupported(name);
        }
        if let Some(name) = native_syscall_name(number) {
            return SyscallOutcome::Native(name);
        }
        SyscallOutcome::Unmapped
    }

    /// Whether the shim must have answered syscall `number` itself.
    pub fn is_shim_only(number: i64) -> (r: bool)
        ensures
            r == shim_only_syscall(number) is Some,
    {
        shim_only_syscall_name(number).is_some()
    }
}

} // verus!
