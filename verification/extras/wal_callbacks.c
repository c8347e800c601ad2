/*
** Registers the callbacks of the Rust program as SQLite's WAL replication.
** Build it together with SQLite's shell, configured with --enable-replication.
*/
#include "sqlite3.h"

/* The replication object that the shell provides. */
sqlite3_wal_replication *get_wal_replication(void);

typedef int (*tx_callback)(sqlite3_wal_replication*, void*);
typedef int (*frames_callback)(sqlite3_wal_replication*, void*, int, int,
                               sqlite3_wal_replication_frame*, unsigned, int);

int wal_register_callbacks(tx_callback xBegin, tx_callback xAbort,
                           frames_callback xFrames, tx_callback xUndo,
                           tx_callback xEnd){
  sqlite3_wal_replication *p = get_wal_replication();
  p->xBegin = xBegin;
  p->xAbort = xAbort;
  p->xFrames = xFrames;
  p->xUndo = xUndo;
  p->xEnd = xEnd;
  return sqlite3_wal_replication_register(p, 1);
}
