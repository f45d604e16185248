//! The collector of memory counters: the lines of `/proc/meminfo`, rendered
//! as a fragment with every size in bytes.

use vstd::prelude::*;
use vstd::string::*;
use crate::text::{
    is_block,
    decimal, decimal_string, metric_line, parse_u64, push_line, same_text, split_words, texts,
    unsigned_value, words, ParseError, ParseErrorKind,
};

verus! {

/// The metric name of a line, by its first word, for the lines that are
/// exported.
pub open spec fn meminfo_metric(key: Seq<char>) -> Option<Seq<char>> {
    if key == "MemTotal:"@ {
        Some("procmeminfo_mem_total_bytes"@)
    } else if key == "MemFree:"@ {
        Some("procmeminfo_mem_free_bytes"@)
    } else if key == "MemAvailable:"@ {
        Some("procmeminfo_mem_available_bytes"@)
    } else if key == "Buffers:"@ {
        Some("procmeminfo_buffers_bytes"@)
    } else if key == "Cached:"@ {
        Some("procmeminfo_cached_bytes"@)
    } else if key == "SwapCached:"@ {
        Some("procmeminfo_swap_cached_bytes"@)
    } else if key == "Active:"@ {
        Some("procmeminfo_active_bytes"@)
    } else if key == "Inactive:"@ {
        Some("procmeminfo_inactive_bytes"@)
    } else if key == "Active(anon):"@ {
        Some("procmeminfo_active_anon_bytes"@)
    } else if key == "Inactive(anon):"@ {
        Some("procmeminfo_inactive_anon_bytes"@)
    } else if key == "Active(file):"@ {
        Some("procmeminfo_active_file_bytes"@)
    } else if key == "Inactive(file):"@ {
        Some("procmeminfo_inactive_file_bytes"@)
    } else if key == "Unevictable:"@ {
        Some("procmeminfo_unevictable_bytes"@)
    } else if key == "Mlocked:"@ {
        Some("procmeminfo_mlocked_bytes"@)
    } else if key == "SwapTotal:"@ {
        Some("procmeminfo_swap_total_bytes"@)
    } else if key == "SwapFree:"@ {
        Some("procmeminfo_swap_free_bytes"@)
    } else if key == "Dirty:"@ {
        Some("procmeminfo_swap_dirty_bytes"@)
    } else if key == "Writeback:"@ {
        Some("procmeminfo_writeback_bytes"@)
    } else if key == "AnonPages:"@ {
        Some("procmeminfo_anon_pages_bytes"@)
    } else if key == "Mapped:"@ {
        Some("procmeminfo_mapped_bytes"@)
    } else if key == "Shmem:"@ {
        Some("procmeminfo_shmem_bytes"@)
    } else if key == "KReclaimable:"@ {
        Some("procmeminfo_kreclaimable_bytes"@)
    } else if key == "Slab:"@ {
        Some("procmeminfo_slab_bytes"@)
    } else if key == "SReclaimable:"@ {
        Some("procmeminfo_sreclaiamble_bytes"@)
    } else if key == "SUnreclaim:"@ {
        Some("procmeminfo_sunreclaim_bytes"@)
    } else if key == "KernelStack:"@ {
        Some("procmeminfo_kernel_stack_bytes"@)
    } else if key == "PageTables:"@ {
        Some("procmeminfo_page_tables_bytes"@)
    } else if key == "NFS_Unstable:"@ {
        Some("procmeminfo_nfs_unstable_bytes"@)
    } else if key == "Bounce:"@ {
        Some("procmeminfo_bounce_bytes"@)
    } else if key == "WritebackTmp:"@ {
        Some("procmeminfo_writeback_tmp_bytes"@)
    } else if key == "CommitLimit:"@ {
        Some("procmeminfo_commit_limit_bytes"@)
    } else if key == "Committed_AS:"@ {
        Some("procmeminfo_commited_as_bytes"@)
    } else if key == "VmallocTotal:"@ {
        Some("procmeminfo_vmalloc_total_bytes"@)
    } else if key == "VmallocUsed:"@ {
        Some("procmeminfo_vmalloc_used_bytes"@)
    } else if key == "VmallocChunk:"@ {
        Some("procmeminfo_vmalloc_chunk_bytes"@)
    } else if key == "Percpu:"@ {
        Some("procmeminfo_percpu_bytes"@)
    } else if key == "HardwareCorrupted:"@ {
        Some("procmeminfo_hardware_corrupted_bytes"@)
    } else if key == "AnonHugePages:"@ {
        Some("procmeminfo_anon_huge_pages_bytes"@)
    } else if key == "ShmemHugePages:"@ {
        Some("procmeminfo_shmem_huge_pages_bytes"@)
    } else if key == "ShmemPmdMapped:"@ {
        Some("procmeminfo_shmem_pmd_mapped_bytes"@)
    } else if key == "FileHugePages:"@ {
        Some("procmeminfo_file_huge_pages_bytes"@)
    } else if key == "FilePmdMapped:"@ {
        Some("procmeminfo_file_pmd_mapped_bytes"@)
    } else if key == "CmaTotal:"@ {
        Some("procmeminfo_cma_total_bytes"@)
    } else if key == "CmaFree:"@ {
        Some("procmeminfo_cma_free_bytes"@)
    } else if key == "HugePages_Total:"@ {
        Some("procmeminfo_huge_pages_total_bytes"@)
    } else if key == "HugePages_Free:"@ {
        Some("procmeminfo_huge_pages_free_bytes"@)
    } else if key == "HugePages_Rsvd:"@ {
        Some("procmeminfo_huge_pages_rsvd_bytes"@)
    } else if key == "HugePages_Surp:"@ {
        Some("procmeminfo_huge_pages_surp_bytes"@)
    } else if key == "Hugetlb:"@ {
        Some("procmeminfo_hugetlb_bytes"@)
    } else if key == "DirectMap4k:"@ {
        Some("procmeminfo_directmap4k_bytes"@)
    } else if key == "DirectMap2M:"@ {
        Some("procmeminfo_directmap2m_bytes"@)
    } else if key == "DirectMap1G:"@ {
        Some("procmeminfo_directmap1g_bytes"@)
    } else {
        None
    }
}

/// What one line of `/proc/meminfo` adds to the fragment. Every line has a
/// name and a value, and a unit, where it has one, of `kB`. An exported line
/// gives one line whose value is 1024 times that of the input; any other
/// line gives nothing.
pub open spec fn meminfo_line(line: Seq<char>) -> Result<Seq<char>, ParseErrorKind> {
    let w = words(line);
    if w.len() < 2 {
        Err(ParseErrorKind::MissingField)
    } else if w.len() >= 3 && w[2] != "kB"@ {
        Err(ParseErrorKind::BadUnit)
    } else {
        match meminfo_metric(w[0]) {
            None => Ok(Seq::empty()),
            Some(name) => match unsigned_value(w[1]) {
                None => Err(ParseErrorKind::BadNumber),
                Some(kbytes) => if kbytes > u64::MAX {
                    Err(ParseErrorKind::BadNumber)
                } else if kbytes * 1024 > u64::MAX {
                    Err(ParseErrorKind::TooLarge)
                } else {
                    Ok(metric_line(name, decimal(kbytes * 1024)))
                },
            },
        }
    }
}

/// The fragment of the first `n` lines, or the first of them that cannot be
/// read.
pub open spec fn meminfo_fragment(lines: Seq<Seq<char>>, n: nat) -> Result<Seq<char>, ParseError>
    decreases n,
{
    if n == 0 {
        Ok(Seq::empty())
    } else {
        match meminfo_fragment(lines, (n - 1) as nat) {
            Err(e) => Err(e),
            Ok(before) => match meminfo_line(lines[n - 1]) {
                Ok(text) => Ok(before + text),
                Err(kind) => Err(ParseError { line: (n - 1) as usize, kind }),
            },
        }
    }
}

fn meminfo_metric_name(key: &str) -> (r: Option<&'static str>)
    ensures
        match r {
            Some(name) => meminfo_metric(key@) == Some(name@),
            None => meminfo_metric(key@) is None,
        },
{
    if same_text(key, "MemTotal:") {
        Some("procmeminfo_mem_total_bytes")
    } else if same_text(key, "MemFree:") {
        Some("procmeminfo_mem_free_bytes")
    } else if same_text(key, "MemAvailable:") {
        Some("procmeminfo_mem_available_bytes")
    } else if same_text(key, "Buffers:") {
        Some("procmeminfo_buffers_bytes")
    } else if same_text(key, "Cached:") {
        Some("procmeminfo_cached_bytes")
    } else if same_text(key, "SwapCached:") {
        Some("procmeminfo_swap_cached_bytes")
    } else if same_text(key, "Active:") {
        Some("procmeminfo_active_bytes")
    } else if same_text(key, "Inactive:") {
        Some("procmeminfo_inactive_bytes")
    } else if same_text(key, "Active(anon):") {
        Some("procmeminfo_active_anon_bytes")
    } else if same_text(key, "Inactive(anon):") {
        Some("procmeminfo_inactive_anon_bytes")
    } else if same_text(key, "Active(file):") {
        Some("procmeminfo_active_file_bytes")
    } else if same_text(key, "Inactive(file):") {
        Some("procmeminfo_inactive_file_bytes")
    } else if same_text(key, "Unevictable:") {
        Some("procmeminfo_unevictable_bytes")
    } else if same_text(key, "Mlocked:") {
        Some("procmeminfo_mlocked_bytes")
    } else if same_text(key, "SwapTotal:") {
        Some("procmeminfo_swap_total_bytes")
    } else if same_text(key, "SwapFree:") {
        Some("procmeminfo_swap_free_bytes")
    } else if same_text(key, "Dirty:") {
        Some("procmeminfo_swap_dirty_bytes")
    } else if same_text(key, "Writeback:") {
        Some("procmeminfo_writeback_bytes")
    } else if same_text(key, "AnonPages:") {
        Some("procmeminfo_anon_pages_bytes")
    } else if same_text(key, "Mapped:") {
        Some("procmeminfo_mapped_bytes")
    } else if same_text(key, "Shmem:") {
        Some("procmeminfo_shmem_bytes")
    } else if same_text(key, "KReclaimable:") {
        Some("procmeminfo_kreclaimable_bytes")
    } else if same_text(key, "Slab:") {
        Some("procmeminfo_slab_bytes")
    } else if same_text(key, "SReclaimable:") {
        Some("procmeminfo_sreclaiamble_bytes")
    } else if same_text(key, "SUnreclaim:") {
        Some("procmeminfo_sunreclaim_bytes")
    } else if same_text(key, "KernelStack:") {
        Some("procmeminfo_kernel_stack_bytes")
    } else if same_text(key, "PageTables:") {
        Some("procmeminfo_page_tables_bytes")
    } else if same_text(key, "NFS_Unstable:") {
        Some("procmeminfo_nfs_unstable_bytes")
    } else if same_text(key, "Bounce:") {
        Some("procmeminfo_bounce_bytes")
    } else if same_text(key, "WritebackTmp:") {
        Some("procmeminfo_writeback_tmp_bytes")
    } else if same_text(key, "CommitLimit:") {
        Some("procmeminfo_commit_limit_bytes")
    } else if same_text(key, "Committed_AS:") {
        Some("procmeminfo_commited_as_bytes")
    } else if same_text(key, "VmallocTotal:") {
        Some("procmeminfo_vmalloc_total_bytes")
    } else if same_text(key, "VmallocUsed:") {
        Some("procmeminfo_vmalloc_used_bytes")
    } else if same_text(key, "VmallocChunk:") {
        Some("procmeminfo_vmalloc_chunk_bytes")
    } else if same_text(key, "Percpu:") {
        Some("procmeminfo_percpu_bytes")
    } else if same_text(key, "HardwareCorrupted:") {
        Some("procmeminfo_hardware_corrupted_bytes")
    } else if same_text(key, "AnonHugePages:") {
        Some("procmeminfo_anon_huge_pages_bytes")
    } else if same_text(key, "ShmemHugePages:") {
        Some("procmeminfo_shmem_huge_pages_bytes")
    } else if same_text(key, "ShmemPmdMapped:") {
        Some("procmeminfo_shmem_pmd_mapped_bytes")
    } else if same_text(key, "FileHugePages:") {
        Some("procmeminfo_file_huge_pages_bytes")
    } else if same_text(key, "FilePmdMapped:") {
        Some("procmeminfo_file_pmd_mapped_bytes")
    } else if same_text(key, "CmaTotal:") {
        Some("procmeminfo_cma_total_bytes")
    } else if same_text(key, "CmaFree:") {
        Some("procmeminfo_cma_free_bytes")
    } else if same_text(key, "HugePages_Total:") {
        Some("procmeminfo_huge_pages_total_bytes")
    } else if same_text(key, "HugePages_Free:") {
        Some("procmeminfo_huge_pages_free_bytes")
    } else if same_text(key, "HugePages_Rsvd:") {
        Some("procmeminfo_huge_pages_rsvd_bytes")
    } else if same_text(key, "HugePages_Surp:") {
        Some("procmeminfo_huge_pages_surp_bytes")
    } else if same_text(key, "Hugetlb:") {
        Some("procmeminfo_hugetlb_bytes")
    } else if same_text(key, "DirectMap4k:") {
        Some("procmeminfo_directmap4k_bytes")
    } else if same_text(key, "DirectMap2M:") {
        Some("procmeminfo_directmap2m_bytes")
    } else if same_text(key, "DirectMap1G:") {
        Some("procmeminfo_directmap1g_bytes")
    } else {
        None
    }
}

/// Appends what one line of `/proc/meminfo` adds to the fragment.
fn push_meminfo_line(out: &mut String, line: &str) -> (r: Result<(), ParseErrorKind>)
    ensures
        is_block(old(out)@) ==> is_block(final(out)@),
        match r {
            Ok(_) => meminfo_line(line@) is Ok && final(out)@ == old(out)@ + meminfo_line(
                line@,
            )->Ok_0,
            Err(kind) => meminfo_line(line@) == Err::<Seq<char>, ParseErrorKind>(kind)
                && final(out)@ == old(out)@,
        },
{
    let w = split_words(line);
    proof {
        assert(texts(w@).len() == w@.len());
    }
    if w.len() < 2 {
        return Err(ParseErrorKind::MissingField);
    }
    proof {
        assert(texts(w@)[0] == w@[0]@);
        assert(texts(w@)[1] == w@[1]@);
    }
    if w.len() >= 3 {
        proof {
            assert(texts(w@)[2] == w@[2]@);
        }
        if !same_text(w[2].as_str(), "kB") {
            return Err(ParseErrorKind::BadUnit);
        }
    }
    match meminfo_metric_name(w[0].as_str()) {
        None => {
            proof {
                assert(out@ =~= old(out)@ + Seq::<char>::empty());
            }
            Ok(())
        },
        Some(name) => {
            match parse_u64(w[1].as_str()) {
                None => Err(ParseErrorKind::BadNumber),
                Some(kbytes) => {
                    if kbytes > u64::MAX / 1024 {
                        Err(ParseErrorKind::TooLarge)
                    } else {
                        let bytes = decimal_string(kbytes * 1024);
                        push_line(out, name, bytes.as_str());
                        Ok(())
                    }
                },
            }
        },
    }
}

/// Renders the lines of `/proc/meminfo` as a fragment; fails at the first
/// line that cannot be read.
pub fn get_proc_memifo(lines: &Vec<String>) -> (out: Result<String, ParseError>)
    ensures
        out matches Ok(text) ==> is_block(text@),
        match out {
            Ok(text) => meminfo_fragment(texts(lines@), lines@.len()) == Ok::<
                Seq<char>,
                ParseError,
            >(text@),
            Err(e) => meminfo_fragment(texts(lines@), lines@.len()) == Err::<Seq<char>, ParseError>(
                e,
            ),
        },
{
    let mut out = String::new();
    let mut i: usize = 0;
    while i < lines.len()
        invariant
            i <= lines.len(),
            meminfo_fragment(texts(lines@), i as nat) == Ok::<Seq<char>, ParseError>(out@),
            is_block(out@),
        decreases lines.len() - i,
    {
        proof {
            assert(texts(lines@)[i as int] == lines@[i as int]@);
        }
        match push_meminfo_line(&mut out, lines[i].as_str()) {
            Ok(_) => {},
            Err(kind) => {
                proof {
                    lemma_meminfo_error_stays(texts(lines@), (i + 1) as nat, lines@.len());
                }
                return Err(ParseError { line: i, kind });
            },
        }
        i += 1;
    }
    Ok(out)
}

/// Once a line cannot be read, the lines after it change nothing.
pub proof fn lemma_meminfo_error_stays(lines: Seq<Seq<char>>, n: nat, m: nat)
    requires
        n <= m,
        meminfo_fragment(lines, n) is Err,
    ensures
        meminfo_fragment(lines, m) == meminfo_fragment(lines, n),
    decreases m,
{
    if m > n {
        lemma_meminfo_error_stays(lines, n, (m - 1) as nat);
    }
}

} // verus!
