# cockpit_logger

The logic of an application log, verified with Verus.

- `names`: which file names belong to the logs.
- `listing`, `listing_laws`: the log files of the log directory, the latest first, and the file
  that a request picks; what holds of every listing.
- `tail`: where the last lines of a log file begin, found from its end chunk by chunk.
- `retention`: which log files have expired.
- `translate`, `translate_laws`: the known phrases of log messages and what stands for them; what
  holds of every translated message.
- `mask`, `sanitize`: masking of the mail addresses in a message.
- `record`: log records, and the file that each goes to.
- `text`: operations on text that the others share.

`app/` holds what touches the system: it reads the directory and the files, removes expired
files, and sets up and feeds `tracing`.
