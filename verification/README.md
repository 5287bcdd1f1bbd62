# lap_media

Verified media helpers of a photo manager: RAW file families and their
preview policy, the choice and decoding of embedded RAW thumbnails, RAW
preview and thumbnail steps, the search for a video's thumbnail frame,
video frame packing and rotation, and video metadata tags.

- `src/` — the library, verified with Verus (`text`, `extension`,
  `raw_format`, `thumbs`, `imaging`, `orientation`, `decode`, `raw`, `video`,
  `metadata`).
- `app/` — file access around it: RAW files through rsraw (LibRaw), videos
  through FFmpeg; it reads, hands plain values to the library and carries
  out the library's steps.
- `tests/` — executable tests of the library.
