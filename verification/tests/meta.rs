//! File types, permissions and the metadata record.

use rawfs::abi::{Statx, StatxTimestamp};
use rawfs::meta::{
    FileType, Metadata, Permissions, DT_BLK, DT_CHR, DT_DIR, DT_FIFO, DT_REG, DT_SOCK, S_IFBLK,
    S_IFCHR, S_IFDIR, S_IFIFO, S_IFLNK, S_IFMT, S_IFREG, S_IFSOCK,
};

fn statx_with_mode(mode: u16) -> Statx {
    let ts = StatxTimestamp { tv_sec: 0, tv_nsec: 0 };
    Statx {
        stx_mask: 0,
        stx_blksize: 0,
        stx_attributes: 0,
        stx_nlink: 0,
        stx_uid: 0,
        stx_gid: 0,
        stx_mode: mode,
        stx_ino: 0,
        stx_size: 0,
        stx_blocks: 0,
        stx_attributes_mask: 0,
        stx_atime: ts,
        stx_btime: ts,
        stx_ctime: ts,
        stx_mtime: ts,
        stx_rdev_major: 0,
        stx_rdev_minor: 0,
        stx_dev_major: 0,
        stx_dev_minor: 0,
        stx_mnt_id: 0,
    }
}

#[test]
fn file_type_from_mode_all_kinds() {
    assert!(FileType::from_mode(S_IFREG | 0o644).is_file());
    assert!(FileType::from_mode(S_IFDIR | 0o755).is_dir());
    assert!(FileType::from_mode(S_IFLNK | 0o777).is_symlink());
    assert!(FileType::from_mode(S_IFBLK).is_block_device());
    assert!(FileType::from_mode(S_IFCHR).is_char_device());
    assert!(FileType::from_mode(S_IFIFO).is_fifo());
    assert!(FileType::from_mode(S_IFSOCK).is_socket());
}

#[test]
fn file_type_from_dtype_with_catch_all() {
    assert_eq!(FileType::from_dtype(DT_REG), FileType::RegularFile);
    assert_eq!(FileType::from_dtype(DT_DIR), FileType::Directory);
    assert_eq!(FileType::from_dtype(DT_SOCK), FileType::Socket);
    assert_eq!(FileType::from_dtype(DT_FIFO), FileType::Fifo);
    assert_eq!(FileType::from_dtype(DT_CHR), FileType::CharDev);
    assert_eq!(FileType::from_dtype(DT_BLK), FileType::BlkDev);
    // Everything else, the link tag and the unknown tag included, reads
    // as a symbolic link.
    assert_eq!(FileType::from_dtype(10), FileType::Symlink);
    assert_eq!(FileType::from_dtype(0), FileType::Symlink);
    assert_eq!(FileType::from_dtype(255), FileType::Symlink);
}

#[test]
fn type_constants_match_libc() {
    assert_eq!(S_IFMT, libc::S_IFMT);
    assert_eq!(S_IFREG, libc::S_IFREG);
    assert_eq!(S_IFDIR, libc::S_IFDIR);
    assert_eq!(S_IFLNK, libc::S_IFLNK);
    assert_eq!(S_IFBLK, libc::S_IFBLK);
    assert_eq!(S_IFCHR, libc::S_IFCHR);
    assert_eq!(S_IFIFO, libc::S_IFIFO);
    assert_eq!(S_IFSOCK, libc::S_IFSOCK);
    assert_eq!(DT_REG, libc::DT_REG);
    assert_eq!(DT_DIR, libc::DT_DIR);
    assert_eq!(DT_SOCK, libc::DT_SOCK);
    assert_eq!(DT_FIFO, libc::DT_FIFO);
    assert_eq!(DT_CHR, libc::DT_CHR);
    assert_eq!(DT_BLK, libc::DT_BLK);
}

#[test]
fn permissions_readonly_bits() {
    let mut p = Permissions::from_mode(0o644);
    assert!(!p.readonly());
    p.set_readonly(true);
    assert_eq!(p.mode(), 0o444);
    assert!(p.readonly());
    p.set_readonly(false);
    assert_eq!(p.mode(), 0o666);
    let mut q = Permissions::from_mode(0);
    assert!(q.readonly());
    q.set_mode(0o200);
    assert!(!q.readonly());
}

#[test]
fn metadata_reads_the_status_record() {
    let mut st = statx_with_mode((S_IFREG | 0o640) as u16);
    st.stx_size = 11;
    st.stx_atime = StatxTimestamp { tv_sec: 100, tv_nsec: 1 };
    st.stx_mtime = StatxTimestamp { tv_sec: 200, tv_nsec: 2 };
    st.stx_ctime = StatxTimestamp { tv_sec: 300, tv_nsec: 3 };
    st.stx_btime = StatxTimestamp { tv_sec: 400, tv_nsec: 4 };
    let md = Metadata { status: st };
    assert!(md.is_file());
    assert!(!md.is_dir());
    assert!(!md.is_symlink());
    assert_eq!(md.len(), 11);
    assert_eq!(md.permission().mode(), (S_IFREG | 0o640) as u32);
    assert_eq!(md.accessed(), Ok(rawfs::times::SystemTime::new(100, 1)));
    assert_eq!(md.modified(), Ok(rawfs::times::SystemTime::new(200, 2)));
    // The creation time is the record's birth timestamp, not the
    // status-change one.
    assert_eq!(md.created(), Ok(rawfs::times::SystemTime::new(400, 4)));
}
