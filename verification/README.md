# streamhead

The media core of a self-hosted livestreaming server, verified with Verus:
RTMP/FLV tag reading and the codec information of a stream, H.264 bitstream
framing (length prefixes and Annex B start codes), the ISO-BMFF boxes and
the fragmented MP4 muxer, the frame queue and framer filters, the stream
repository and session bookkeeping of the ingest and site services, account
passwords, and the help-page tree.

- `src/` is the library. Every function in it is verified; calls into
  outside crates go through small wrappers whose contracts say what the
  crate's source shows.
- `tests/` runs the library on concrete values.
- `app/` is the runtime around it: async filter traits and graphs, TCP and
  RTMP connections, `h264_reader`'s Annex B reader, and writing the help
  pages to disk.
