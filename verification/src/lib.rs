pub mod boot_info;
pub mod consts;
pub mod elf;
pub mod hypercall;
pub mod loader;
pub mod mem;
pub mod paging;
pub mod params;
pub mod shared_queue;
pub mod uhyve;
pub mod vcpu;
pub mod vm;
