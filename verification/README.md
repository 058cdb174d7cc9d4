# recoverpill

Recovery of deleted files from raw disks and images: file types are found by
their signatures, sizes are estimated from their headers, found data is
classified and given a recoverability score, and FAT32 and NTFS metadata is
read for file names. The library is written in Verus: each function states
what it computes in its `requires`/`ensures`, and Verus proves it.

## Layout

- `src/` — the verified library.
  - `signatures` — the signature database, type detection and size estimates.
  - `scanner`, `scan_loop` — sector and window searches, carving, and the
    decisions of the chunk-by-chunk scan (the caller does the reading).
  - `classifier`, `entropy` — type guesses, structural validation,
    recovery predictions; entropies arrive as `f64` bit patterns and are
    compared exactly.
  - `recovery` — where recovered data ends, read sizes, the piecewise copy,
    grouping of recovered files by category.
  - `filesystem` — FAT32 directory walk and NTFS MFT record parsing.
  - `names` — file names taken from inside the data (ZIP, PDF, JPEG, ID3).
  - `drive_info`, `access` — drive letters, sizes and labels from the values
    the operating system returns.
  - `android` — parsing of ADB output into devices, partitions and files.
  - `ui` — selection, filtering, sorting and paging of found files.
  - `laws` — properties that span several operations.
  - `text`, `words`, `bytes` — string, word and byte helpers.
- `tests/` — tests of the library on concrete values.
- `app/` — the command-line program: disk and file I/O, ADB, threads,
  floating-point entropy, JSON output.

## Inputs left out

A few functions have a `requires` that leaves out inputs on which the
computation would fail with a panic or never end:

- `find_file_end`: PDF data that is not empty (the end search slices past
  the end of the data), and MP4/MOV data whose first `moov` lies in its
  first four bytes (the atom-size read would start before the data).
- `parse_mft_record`: records whose attribute walk would read outside the
  record (`mft_record_safe` tests this).
- `extract_filename_from_data`: MP3 data whose ID3 title scan meets an
  empty or undecodable title frame (`name_extraction_safe` tests this).
- The size estimates: data too short for the search range of its type.

Callers test these conditions first with the functions named.

## Choices where code and documentation differ

- `geometry_ex_size` reads the `DiskSize` field (bytes 24 to 32) of a
  `DISK_GEOMETRY_EX` answer, which is what the disk size is documented as.
- `/proc/partitions` lines count when their block count is a number; the
  fourth word is the partition's name.
- The PDF `%%EOF` and ZIP end-of-central-directory searches include a
  marker that ends the data.
- The DEX and SQLite patterns are consulted by the classifier, after the
  signature database.
